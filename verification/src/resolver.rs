//! Resolution of a package's location into its descriptor, as a state
//! machine. The machine decides; a driver outside performs what it asks for
//! (fetching a resource, decoding an image, writing a report) and hands back
//! what came of it.

use vstd::prelude::*;
use vstd::utf8::decode_utf8;
use vstd::utf8::valid_utf8;
use crate::diagnostic::Diagnostic;
use crate::diagnostic::DiagnosticKind;
use crate::diagnostic::DiagnosticView;
use crate::line::value;
use crate::line::value_of;
use crate::package::Bitmap;
use crate::package::BitmapView;
use crate::package::Location;
use crate::package::LocationView;
use crate::package::Outcome;
use crate::package::Package;
use crate::package::PackageView;
use crate::text::decode;
use crate::text::lines;
use crate::text::split_lines;

verus! {

/// Why a resolution was given up.
#[derive(Clone, Copy, Debug, PartialEq, Eq, Structural)]
pub enum LoadError {
    /// A resource could not be fetched.
    Fetch,
    /// The metadata is no well-formed text, or the icon no image.
    Decode,
    /// The driver handed back something that does not answer what the
    /// machine had asked for.
    Protocol,
}

/// Where a resolution stands.
#[derive(Clone, Copy, Debug, PartialEq, Eq, Structural)]
pub enum Phase {
    /// Nothing was asked for yet.
    Created,
    /// The metadata resource was asked for.
    AwaitMetadata,
    /// The metadata is there and its lines are being read.
    Running,
    /// An icon was asked for.
    AwaitIcon,
    /// Every line was read.
    Done,
    /// The resolution was given up.
    Failed(LoadError),
}

/// What the driver hands to the machine.
#[derive(Debug, PartialEq, Eq)]
pub enum Event {
    /// Nothing to hand back: the machine may go on.
    Continue,
    /// The bytes of the metadata resource.
    Metadata(Vec<u8>),
    /// The decoded icon.
    Icon(Bitmap),
    /// The resource that was asked for could not be fetched.
    FetchFailed,
    /// The resource that was asked for could not be decoded.
    DecodeFailed,
}

/// What an `Event` stands for in contracts.
pub enum EventView {
    Continue,
    Metadata(Seq<u8>),
    Icon(BitmapView),
    FetchFailed,
    DecodeFailed,
}

impl View for Event {
    type V = EventView;

    open spec fn view(&self) -> EventView {
        match self {
            Event::Continue => EventView::Continue,
            Event::Metadata(bytes) => EventView::Metadata(bytes@),
            Event::Icon(icon) => EventView::Icon(icon@),
            Event::FetchFailed => EventView::FetchFailed,
            Event::DecodeFailed => EventView::DecodeFailed,
        }
    }
}

impl Clone for Event {
    fn clone(&self) -> (res: Self)
        ensures
            res@ == self@,
    {
        match self {
            Event::Continue => Event::Continue,
            Event::Metadata(bytes) => Event::Metadata(bytes.clone()),
            Event::Icon(icon) => Event::Icon(icon.clone()),
            Event::FetchFailed => Event::FetchFailed,
            Event::DecodeFailed => Event::DecodeFailed,
        }
    }
}

/// What the machine asks the driver to do.
#[derive(Debug, PartialEq, Eq)]
pub enum Action {
    /// Fetch the metadata resource at this address and hand back its bytes.
    FetchMetadata(String),
    /// Fetch the resource at this address, decode it as an image and hand
    /// back the image.
    FetchIcon(String),
    /// Write out this report, then let the machine go on.
    Report(Diagnostic),
    /// The descriptor is complete.
    Done,
    /// The resolution was given up.
    Fail(LoadError),
}

/// What an `Action` stands for in contracts.
pub enum ActionView {
    FetchMetadata(Seq<char>),
    FetchIcon(Seq<char>),
    Report(DiagnosticView),
    Done,
    Fail(LoadError),
}

impl View for Action {
    type V = ActionView;

    open spec fn view(&self) -> ActionView {
        match self {
            Action::FetchMetadata(address) => ActionView::FetchMetadata(address@),
            Action::FetchIcon(address) => ActionView::FetchIcon(address@),
            Action::Report(diagnostic) => ActionView::Report(diagnostic@),
            Action::Done => ActionView::Done,
            Action::Fail(error) => ActionView::Fail(*error),
        }
    }
}

impl Clone for Action {
    fn clone(&self) -> (res: Self)
        ensures
            res@ == self@,
    {
        match self {
            Action::FetchMetadata(address) => Action::FetchMetadata(address.clone()),
            Action::FetchIcon(address) => Action::FetchIcon(address.clone()),
            Action::Report(diagnostic) => Action::Report(diagnostic.clone()),
            Action::Done => Action::Done,
            Action::Fail(error) => Action::Fail(*error),
        }
    }
}

/// The address of the metadata resource of the package at `url`.
pub open spec fn metadata_address_of(url: LocationView) -> Seq<char> {
    url.string + "/_REDOX"@
}

/// A resolution under way: the descriptor as far as it is filled, the lines
/// of the metadata, and how many of them were read.
pub struct Resolver {
    package: Package,
    lines: Vec<String>,
    cursor: usize,
    phase: Phase,
}

/// What a `Resolver` stands for in contracts.
pub struct ResolverView {
    pub package: PackageView,
    pub lines: Seq<Seq<char>>,
    pub cursor: nat,
    pub phase: Phase,
}

impl View for Resolver {
    type V = ResolverView;

    closed spec fn view(&self) -> ResolverView {
        ResolverView {
            package: self.package@,
            lines: self.lines.deep_view(),
            cursor: self.cursor as nat,
            phase: self.phase,
        }
    }
}

impl ResolverView {
    /// The state in which the resolution of `url` starts.
    pub open spec fn start(url: LocationView) -> ResolverView {
        ResolverView {
            package: PackageView::blank(url),
            lines: Seq::empty(),
            cursor: 0,
            phase: Phase::Created,
        }
    }

    /// Gives the resolution up.
    pub open spec fn fail(self, error: LoadError) -> (ResolverView, ActionView) {
        (ResolverView { phase: Phase::Failed(error), ..self }, ActionView::Fail(error))
    }

    /// Reads lines from the cursor on, up to and including the first one that
    /// asks something of the driver, or to the end.
    pub open spec fn run(self) -> (ResolverView, ActionView)
        decreases self.lines.len() - self.cursor,
    {
        if self.cursor >= self.lines.len() {
            (ResolverView { phase: Phase::Done, ..self }, ActionView::Done)
        } else {
            let line = self.lines[self.cursor as int];
            let next = ResolverView {
                package: self.package.applied(line),
                cursor: self.cursor + 1,
                phase: Phase::Running,
                ..self
            };
            match self.package.outcome_of(line) {
                Outcome::Applied => next.run(),
                Outcome::Fetch => (
                    ResolverView { phase: Phase::AwaitIcon, ..next },
                    ActionView::FetchIcon(value_of(line)),
                ),
                Outcome::Duplicate => (
                    next,
                    ActionView::Report(DiagnosticView { kind: DiagnosticKind::Duplicate, line }),
                ),
                Outcome::Unknown => (
                    next,
                    ActionView::Report(DiagnosticView { kind: DiagnosticKind::Unknown, line }),
                ),
            }
        }
    }

    /// The state after `event`, and what the driver is to do next.
    pub open spec fn step(self, event: EventView) -> (ResolverView, ActionView) {
        match self.phase {
            Phase::Created => match event {
                EventView::Continue => (
                    ResolverView { phase: Phase::AwaitMetadata, ..self },
                    ActionView::FetchMetadata(metadata_address_of(self.package.url)),
                ),
                _ => self.fail(LoadError::Protocol),
            },
            Phase::AwaitMetadata => match event {
                EventView::Metadata(bytes) => if valid_utf8(bytes) {
                    ResolverView {
                        lines: lines(decode_utf8(bytes)),
                        cursor: 0,
                        phase: Phase::Running,
                        ..self
                    }.run()
                } else {
                    self.fail(LoadError::Decode)
                },
                EventView::FetchFailed => self.fail(LoadError::Fetch),
                EventView::DecodeFailed => self.fail(LoadError::Decode),
                _ => self.fail(LoadError::Protocol),
            },
            Phase::Running => match event {
                EventView::Continue => self.run(),
                _ => self.fail(LoadError::Protocol),
            },
            Phase::AwaitIcon => match event {
                EventView::Icon(icon) => ResolverView {
                    package: PackageView { icon, ..self.package },
                    phase: Phase::Running,
                    ..self
                }.run(),
                EventView::FetchFailed => self.fail(LoadError::Fetch),
                EventView::DecodeFailed => self.fail(LoadError::Decode),
                _ => self.fail(LoadError::Protocol),
            },
            Phase::Done => (self, ActionView::Done),
            Phase::Failed(error) => (self, ActionView::Fail(error)),
        }
    }
}

impl Resolver {
    fn fail(self, error: LoadError) -> (r: (Resolver, Action))
        ensures
            (r.0@, r.1@) == self@.fail(error),
    {
        (Resolver { phase: Phase::Failed(error), ..self }, Action::Fail(error))
    }

    fn run(self) -> (r: (Resolver, Action))
        ensures
            (r.0@, r.1@) == self@.run(),
    {
        let ghost start = self@;
        let mut package = self.package;
        let lines = self.lines;
        let mut cursor: usize = self.cursor;
        while cursor < lines.len()
            invariant
                start == self@,
                lines.deep_view() == start.lines,
                (ResolverView {
                    package: package@,
                    lines: start.lines,
                    cursor: cursor as nat,
                    phase: start.phase,
                }).run() == start.run(),
            decreases lines.len() - cursor,
        {
            let ghost here = ResolverView {
                package: package@,
                lines: start.lines,
                cursor: cursor as nat,
                phase: start.phase,
            };
            let line: &str = lines[cursor].as_str();
            assert(line@ == here.lines[cursor as int]);
            let outcome = package.apply(line);
            cursor = cursor + 1;
            let ghost next = ResolverView {
                package: package@,
                lines: start.lines,
                cursor: cursor as nat,
                phase: Phase::Running,
            };
            assert(outcome == Outcome::Applied ==> here.run() == next.run());
            assert((ResolverView { phase: start.phase, ..next }).run() == next.run());
            match outcome {
                Outcome::Applied => {},
                Outcome::Fetch => {
                    let address = value(line);
                    return (
                        Resolver { package, lines, cursor, phase: Phase::AwaitIcon },
                        Action::FetchIcon(address),
                    );
                },
                Outcome::Duplicate => {
                    let diagnostic = Diagnostic {
                        kind: DiagnosticKind::Duplicate,
                        line: String::from_str(line),
                    };
                    return (
                        Resolver { package, lines, cursor, phase: Phase::Running },
                        Action::Report(diagnostic),
                    );
                },
                Outcome::Unknown => {
                    let diagnostic = Diagnostic {
                        kind: DiagnosticKind::Unknown,
                        line: String::from_str(line),
                    };
                    return (
                        Resolver { package, lines, cursor, phase: Phase::Running },
                        Action::Report(diagnostic),
                    );
                },
            }
        }
        (Resolver { package, lines, cursor, phase: Phase::Done }, Action::Done)
    }

    /// Takes what the driver hands back, goes on as far as it can without
    /// the driver, and says what the driver is to do next.
    pub fn step(self, event: Event) -> (r: (Resolver, Action))
        ensures
            (r.0@, r.1@) == self@.step(event@),
    {
        match self.phase {
            Phase::Created => match event {
                Event::Continue => {
                    let mut address = self.package.url.string.clone();
                    address.append("/_REDOX");
                    (Resolver { phase: Phase::AwaitMetadata, ..self }, Action::FetchMetadata(address))
                },
                _ => self.fail(LoadError::Protocol),
            },
            Phase::AwaitMetadata => match event {
                Event::Metadata(bytes) => match decode(bytes) {
                    Some(text) => {
                        let lines = split_lines(text.as_str());
                        Resolver { lines, cursor: 0, phase: Phase::Running, ..self }.run()
                    },
                    None => self.fail(LoadError::Decode),
                },
                Event::FetchFailed => self.fail(LoadError::Fetch),
                Event::DecodeFailed => self.fail(LoadError::Decode),
                _ => self.fail(LoadError::Protocol),
            },
            Phase::Running => match event {
                Event::Continue => self.run(),
                _ => self.fail(LoadError::Protocol),
            },
            Phase::AwaitIcon => match event {
                Event::Icon(icon) => {
                    let Resolver { package, lines, cursor, phase: _ } = self;
                    let package = Package { icon, ..package };
                    Resolver { package, lines, cursor, phase: Phase::Running }.run()
                },
                Event::FetchFailed => self.fail(LoadError::Fetch),
                Event::DecodeFailed => self.fail(LoadError::Decode),
                _ => self.fail(LoadError::Protocol),
            },
            Phase::Done => (self, Action::Done),
            Phase::Failed(error) => (self, Action::Fail(error)),
        }
    }

    /// The descriptor, once every line was read; `None` before that and
    /// after a failure.
    pub fn finish(self) -> (r: Option<Package>)
        ensures
            r is Some <==> self@.phase == Phase::Done,
            r matches Some(package) ==> package@ == self@.package,
    {
        match self.phase {
            Phase::Done => Some(self.package),
            _ => None,
        }
    }
}

impl Package {
    /// Starts the resolution of the package at `url`.
    pub fn from_url(url: &Location) -> (r: Resolver)
        ensures
            r@ == ResolverView::start(url@),
    {
        let r = Resolver {
            package: Package::blank(url),
            lines: Vec::new(),
            cursor: 0,
            phase: Phase::Created,
        };
        assert(r.lines.deep_view() =~= Seq::<Seq<char>>::empty());
        r
    }
}

} // verus!
