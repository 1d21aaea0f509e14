use package_descriptor::diagnostic::{Diagnostic, DiagnosticKind};
use package_descriptor::package::{Bitmap, Location, Package};
use package_descriptor::resolver::{Action, Event, LoadError, Resolver};

fn location(string: &str, parts: &[&str]) -> Location {
    Location {
        string: string.to_string(),
        path_parts: parts.iter().map(|p| p.to_string()).collect(),
    }
}

fn editor() -> Location {
    location("file:///apps/editor", &["apps", "editor"])
}

fn bitmap(width: usize, height: usize) -> Bitmap {
    Bitmap { data: vec![0xff00_00ff; width * height], width, height }
}

fn duplicate(line: &str) -> Diagnostic {
    Diagnostic { kind: DiagnosticKind::Duplicate, line: line.to_string() }
}

fn unknown(line: &str) -> Diagnostic {
    Diagnostic { kind: DiagnosticKind::Unknown, line: line.to_string() }
}

/// What a driven resolution came to.
struct Run {
    package: Option<Package>,
    reports: Vec<Diagnostic>,
    fetched: Vec<String>,
    last: Action,
    steps: usize,
}

/// Drives a resolution to its end: the metadata request is answered with
/// `metadata`, the icon requests with `icons` in order (one that is missing
/// counts as a failed fetch), each report by letting the machine go on.
fn drive(url: &Location, metadata: Event, icons: Vec<Event>) -> Run {
    let mut icons = icons.into_iter();
    let mut reports = Vec::new();
    let mut fetched = Vec::new();
    let mut resolver = Package::from_url(url);
    let mut event = Event::Continue;
    let mut steps = 0;
    loop {
        let (next, action) = resolver.step(event);
        resolver = next;
        steps += 1;
        event = match action {
            Action::FetchMetadata(address) => {
                fetched.push(address);
                metadata.clone()
            }
            Action::FetchIcon(address) => {
                fetched.push(address);
                icons.next().unwrap_or(Event::FetchFailed)
            }
            Action::Report(diagnostic) => {
                reports.push(diagnostic);
                Event::Continue
            }
            last => {
                return Run { package: resolver.finish(), reports, fetched, last, steps };
            }
        };
    }
}

fn resolve(text: &str) -> Run {
    drive(&editor(), Event::Metadata(text.as_bytes().to_vec()), vec![])
}

fn awaiting_metadata() -> Resolver {
    let (resolver, action) = Package::from_url(&editor()).step(Event::Continue);
    assert_eq!(action, Action::FetchMetadata("file:///apps/editor/_REDOX".to_string()));
    resolver
}

#[test]
fn identifier_is_the_last_path_segment() {
    let run = drive(
        &location("file:///apps/games/chess", &["apps", "games", "chess"]),
        Event::Metadata(b"name=Chess".to_vec()),
        vec![],
    );
    assert_eq!(run.package.unwrap().id, "chess");

    let run = drive(&location("file:///solo", &["solo"]), Event::Metadata(Vec::new()), vec![]);
    assert_eq!(run.package.unwrap().id, "solo");
}

#[test]
fn identifier_is_empty_without_path_segments() {
    let url = location("file://", &[]);
    let run = drive(&url, Event::Metadata(b"name=Root".to_vec()), vec![]);
    let package = run.package.unwrap();
    assert_eq!(package.id, "");
    assert_eq!(package.name, "Root");
    assert_eq!(package.url, url);
    assert_eq!(run.fetched, vec!["file:///_REDOX".to_string()]);
}

#[test]
fn identifier_is_not_taken_from_the_metadata() {
    let run = resolve("id=other\nname=editor2");
    let package = run.package.unwrap();
    assert_eq!(package.id, "editor");
    assert_eq!(run.reports, vec![unknown("id=other")]);
}

#[test]
fn location_is_kept_as_given() {
    let url = location("http://host:8080/a/b?x=1", &["a", "b"]);
    let run = drive(&url, Event::Metadata(b"author=A".to_vec()), vec![]);
    assert_eq!(run.package.unwrap().url, url);
    assert_eq!(run.fetched, vec!["http://host:8080/a/b?x=1/_REDOX".to_string()]);
}

#[test]
fn first_name_wins_and_second_is_reported() {
    let run = resolve("name=Foo\nname=Bar");
    let package = run.package.unwrap();
    assert_eq!(package.name, "Foo");
    assert_eq!(run.reports, vec![duplicate("name=Bar")]);
    assert_eq!(run.reports[0].message(), "Duplicate package info: name=Bar\n");
    assert_eq!(run.last, Action::Done);
}

#[test]
fn every_later_name_is_reported() {
    let run = resolve("name=A\nname=B\nauthor=x\nname=A");
    assert_eq!(run.package.unwrap().name, "A");
    assert_eq!(run.reports, vec![duplicate("name=B"), duplicate("name=A")]);
}

#[test]
fn empty_name_does_not_block_a_later_name() {
    let run = resolve("name=\nname=Foo\nname=Bar");
    assert_eq!(run.package.unwrap().name, "Foo");
    assert_eq!(run.reports, vec![duplicate("name=Bar")]);
}

#[test]
fn authors_keep_file_order_and_repeats() {
    let run = resolve("author=A\nauthor=B");
    let package = run.package.unwrap();
    assert_eq!(package.authors, vec!["A".to_string(), "B".to_string()]);
    assert!(run.reports.is_empty());

    let run = resolve("author=B\nauthor=A\nauthor=B\nauthor=");
    assert_eq!(
        run.package.unwrap().authors,
        vec!["B".to_string(), "A".to_string(), "B".to_string(), String::new()]
    );
    assert!(run.reports.is_empty());
}

#[test]
fn descriptions_keep_file_order_and_repeats() {
    let run = resolve("description=one\nauthor=A\ndescription=two\ndescription=one");
    let package = run.package.unwrap();
    assert_eq!(
        package.descriptions,
        vec!["one".to_string(), "two".to_string(), "one".to_string()]
    );
    assert_eq!(package.authors, vec!["A".to_string()]);
}

#[test]
fn unknown_line_is_reported_and_changes_nothing() {
    let run = resolve("foo=bar");
    let package = run.package.unwrap();
    assert_eq!(run.reports, vec![unknown("foo=bar")]);
    assert_eq!(run.reports[0].message(), "Unknown package info: foo=bar\n");
    assert_eq!(
        package,
        Package {
            url: editor(),
            id: "editor".to_string(),
            name: String::new(),
            icon: Bitmap::new(),
            authors: vec![],
            descriptions: vec![],
        }
    );
}

#[test]
fn unknown_line_does_not_stop_the_lines_after_it() {
    let run = resolve("name=X\nfoo=bar\nauthor=Y\n name=Z\nNAME=Z");
    let package = run.package.unwrap();
    assert_eq!(package.name, "X");
    assert_eq!(package.authors, vec!["Y".to_string()]);
    assert_eq!(run.reports, vec![unknown("foo=bar"), unknown(" name=Z"), unknown("NAME=Z")]);
}

#[test]
fn name_author_description_round_trip() {
    let run = resolve("name=X\nauthor=Y\ndescription=Z");
    let package = run.package.unwrap();
    assert_eq!(package.name, "X");
    assert_eq!(package.authors, vec!["Y".to_string()]);
    assert_eq!(package.descriptions, vec!["Z".to_string()]);
    assert_eq!(package.icon, Bitmap::new());
    assert!(package.icon.data.is_empty());
    assert!(run.reports.is_empty());
    assert_eq!(run.fetched.len(), 1);
}

#[test]
fn empty_metadata_is_one_empty_line() {
    let run = resolve("");
    let package = run.package.unwrap();
    assert_eq!(run.reports, vec![unknown("")]);
    assert_eq!(run.reports[0].message(), "Unknown package info: \n");
    assert_eq!(package.url, editor());
    assert_eq!(package.id, "editor");
    assert_eq!(package.name, "");
    assert_eq!(package.icon, Bitmap::new());
    assert!(package.authors.is_empty());
    assert!(package.descriptions.is_empty());
}

#[test]
fn trailing_line_break_gives_an_empty_last_line() {
    let run = resolve("name=X\n");
    assert_eq!(run.package.unwrap().name, "X");
    assert_eq!(run.reports, vec![unknown("")]);

    let run = resolve("\n\n");
    assert_eq!(run.reports, vec![unknown(""), unknown(""), unknown("")]);
}

#[test]
fn values_are_not_trimmed() {
    let run = resolve("name= X \nauthor=\tA=b\r\ndescription==");
    let package = run.package.unwrap();
    assert_eq!(package.name, " X ");
    assert_eq!(package.authors, vec!["\tA=b\r".to_string()]);
    assert_eq!(package.descriptions, vec!["=".to_string()]);
}

#[test]
fn text_beyond_ascii_is_kept() {
    let run = resolve("name=Éditeur ✎\nauthor=山田\nñame=x");
    let package = run.package.unwrap();
    assert_eq!(package.name, "Éditeur ✎");
    assert_eq!(package.authors, vec!["山田".to_string()]);
    assert_eq!(run.reports, vec![unknown("ñame=x")]);
}

#[test]
fn metadata_that_is_not_text_fails_the_resolution() {
    let run = drive(&editor(), Event::Metadata(vec![b'n', b'a', 0xff, b'=']), vec![]);
    assert_eq!(run.last, Action::Fail(LoadError::Decode));
    assert_eq!(run.package, None);
    assert!(run.reports.is_empty());

    let run = drive(&editor(), Event::Metadata(vec![0xc3]), vec![]);
    assert_eq!(run.last, Action::Fail(LoadError::Decode));
}

#[test]
fn metadata_bytes_are_decoded_as_utf8() {
    let run = drive(&editor(), Event::Metadata(vec![b'n', b'a', b'm', b'e', b'=', 0xc3, 0xa9]), vec![]);
    assert_eq!(run.package.unwrap().name, "é");
}

#[test]
fn metadata_that_cannot_be_fetched_fails_the_resolution() {
    let run = drive(&editor(), Event::FetchFailed, vec![]);
    assert_eq!(run.last, Action::Fail(LoadError::Fetch));
    assert_eq!(run.package, None);

    let run = drive(&editor(), Event::DecodeFailed, vec![]);
    assert_eq!(run.last, Action::Fail(LoadError::Decode));
    assert_eq!(run.package, None);
}

#[test]
fn icon_is_fetched_from_the_address_in_the_line() {
    let run = drive(
        &editor(),
        Event::Metadata(b"name=X\nicon=file:///apps/editor/icon.bmp\nauthor=A".to_vec()),
        vec![Event::Icon(bitmap(2, 3))],
    );
    let package = run.package.unwrap();
    assert_eq!(package.icon, bitmap(2, 3));
    assert_eq!(package.name, "X");
    assert_eq!(package.authors, vec!["A".to_string()]);
    assert_eq!(
        run.fetched,
        vec![
            "file:///apps/editor/_REDOX".to_string(),
            "file:///apps/editor/icon.bmp".to_string()
        ]
    );
    assert!(run.reports.is_empty());
}

#[test]
fn second_icon_is_reported_and_not_fetched() {
    let run = drive(
        &editor(),
        Event::Metadata(b"icon=a.bmp\nicon=b.bmp".to_vec()),
        vec![Event::Icon(bitmap(1, 1)), Event::Icon(bitmap(4, 4))],
    );
    assert_eq!(run.package.unwrap().icon, bitmap(1, 1));
    assert_eq!(run.reports, vec![duplicate("icon=b.bmp")]);
    assert_eq!(run.fetched, vec!["file:///apps/editor/_REDOX".to_string(), "a.bmp".to_string()]);
}

#[test]
fn icon_without_pixels_does_not_block_a_later_icon() {
    let run = drive(
        &editor(),
        Event::Metadata(b"icon=a.bmp\nicon=b.bmp\nicon=c.bmp".to_vec()),
        vec![Event::Icon(Bitmap::new()), Event::Icon(bitmap(4, 4))],
    );
    assert_eq!(run.package.unwrap().icon, bitmap(4, 4));
    assert_eq!(run.reports, vec![duplicate("icon=c.bmp")]);
    assert_eq!(
        run.fetched,
        vec!["file:///apps/editor/_REDOX".to_string(), "a.bmp".to_string(), "b.bmp".to_string()]
    );
}

#[test]
fn icon_that_cannot_be_fetched_fails_the_resolution() {
    let text = b"name=X\nfoo\nicon=missing.bmp\nauthor=A".to_vec();
    let run = drive(&editor(), Event::Metadata(text.clone()), vec![Event::FetchFailed]);
    assert_eq!(run.last, Action::Fail(LoadError::Fetch));
    assert_eq!(run.package, None);
    assert_eq!(run.reports, vec![unknown("foo")]);

    let run = drive(&editor(), Event::Metadata(text), vec![Event::DecodeFailed]);
    assert_eq!(run.last, Action::Fail(LoadError::Decode));
    assert_eq!(run.package, None);
}

#[test]
fn event_that_answers_nothing_fails_the_resolution() {
    let (_, action) = Package::from_url(&editor()).step(Event::Metadata(Vec::new()));
    assert_eq!(action, Action::Fail(LoadError::Protocol));

    let (_, action) = awaiting_metadata().step(Event::Continue);
    assert_eq!(action, Action::Fail(LoadError::Protocol));

    let (_, action) = awaiting_metadata().step(Event::Icon(bitmap(1, 1)));
    assert_eq!(action, Action::Fail(LoadError::Protocol));

    let (resolver, action) = awaiting_metadata().step(Event::Metadata(b"x\nname=A".to_vec()));
    assert_eq!(action, Action::Report(unknown("x")));
    let (_, action) = resolver.step(Event::Icon(bitmap(1, 1)));
    assert_eq!(action, Action::Fail(LoadError::Protocol));

    let (resolver, action) = awaiting_metadata().step(Event::Metadata(b"icon=a".to_vec()));
    assert_eq!(action, Action::FetchIcon("a".to_string()));
    let (_, action) = resolver.step(Event::Continue);
    assert_eq!(action, Action::Fail(LoadError::Protocol));
}

#[test]
fn done_and_failed_are_final() {
    let (resolver, action) = awaiting_metadata().step(Event::Metadata(b"name=A".to_vec()));
    assert_eq!(action, Action::Done);
    let (resolver, action) = resolver.step(Event::Continue);
    assert_eq!(action, Action::Done);
    let (resolver, action) = resolver.step(Event::FetchFailed);
    assert_eq!(action, Action::Done);
    assert_eq!(resolver.finish().unwrap().name, "A");

    let (resolver, action) = awaiting_metadata().step(Event::FetchFailed);
    assert_eq!(action, Action::Fail(LoadError::Fetch));
    let (resolver, action) = resolver.step(Event::Metadata(b"name=A".to_vec()));
    assert_eq!(action, Action::Fail(LoadError::Fetch));
    let (resolver, action) = resolver.step(Event::Continue);
    assert_eq!(action, Action::Fail(LoadError::Fetch));
    assert_eq!(resolver.finish(), None);
}

#[test]
fn descriptor_is_not_handed_out_before_the_end() {
    assert_eq!(Package::from_url(&editor()).finish(), None);
    assert_eq!(awaiting_metadata().finish(), None);

    let (resolver, action) = awaiting_metadata().step(Event::Metadata(b"name=A\nname=B".to_vec()));
    assert_eq!(action, Action::Report(duplicate("name=B")));
    assert_eq!(resolver.finish(), None);

    let (resolver, _) = awaiting_metadata().step(Event::Metadata(b"name=A\nicon=i".to_vec()));
    assert_eq!(resolver.finish(), None);
}

#[test]
fn silent_lines_are_read_in_one_step() {
    let run = resolve("name=A\nauthor=B\nauthor=C\ndescription=D");
    assert_eq!(run.steps, 2);
    assert!(run.reports.is_empty());

    let run = resolve("name=A\nx\nauthor=C\ny\ndescription=D");
    assert_eq!(run.steps, 4);
    assert_eq!(run.reports, vec![unknown("x"), unknown("y")]);
}
