//! What a resolution comes to, said directly: the lines of the metadata read
//! in order against the descriptor, with no machine and no driver.

use vstd::prelude::*;
use vstd::utf8::decode_utf8;
use vstd::utf8::valid_utf8;
use crate::diagnostic::DiagnosticKind;
use crate::diagnostic::DiagnosticView;
use crate::line::kind_of;
use crate::line::value_of;
use crate::line::LineKind;
use crate::package::identifier_of;
use crate::package::lemma_applied_keeps;
use crate::package::LocationView;
use crate::package::Outcome;
use crate::package::PackageView;
use crate::resolver::EventView;
use crate::resolver::LoadError;
use crate::text::lines;

verus! {

/// What a resolution comes to in the end: the descriptor as far as it got,
/// the reports in the order in which they were made, the addresses of the
/// icons that were asked for, in order, and why it was given up, if it was.
pub struct Reading {
    pub package: PackageView,
    pub reports: Seq<DiagnosticView>,
    pub asked: Seq<Seq<char>>,
    pub failure: Option<LoadError>,
}

impl Reading {
    /// A resolution that ends here with the descriptor `package`.
    pub open spec fn end(package: PackageView, failure: Option<LoadError>) -> Reading {
        Reading { package, reports: Seq::empty(), asked: Seq::empty(), failure }
    }

    /// This resolution with `diagnostic` reported before it.
    pub open spec fn after_report(self, diagnostic: DiagnosticView) -> Reading {
        Reading { reports: seq![diagnostic] + self.reports, ..self }
    }

    /// This resolution with the icon at `address` asked for before it.
    pub open spec fn after_asking(self, address: Seq<char>) -> Reading {
        Reading { asked: seq![address] + self.asked, ..self }
    }
}

/// The answer to the next request for an icon: the first of `answers`. A
/// request beyond the answers given counts as one that could not be
/// fetched.
pub open spec fn next_answer(answers: Seq<EventView>) -> EventView {
    if answers.len() > 0 {
        answers[0]
    } else {
        EventView::FetchFailed
    }
}

/// Why a resolution is given up when `answer` comes in place of a resource.
pub open spec fn failure_of(answer: EventView) -> LoadError {
    match answer {
        EventView::FetchFailed => LoadError::Fetch,
        EventView::DecodeFailed => LoadError::Decode,
        _ => LoadError::Protocol,
    }
}

/// What reading `lines` in order against the descriptor `package` comes to,
/// where the requests for an icon are answered by `answers` in order. Each
/// line is read against the descriptor as the lines before it left it; an
/// icon that comes back goes into the descriptor; anything else that comes
/// back in its place ends the reading.
pub open spec fn reading(
    package: PackageView,
    lines: Seq<Seq<char>>,
    answers: Seq<EventView>,
) -> Reading
    decreases lines.len(),
{
    if lines.len() == 0 {
        Reading::end(package, None)
    } else {
        let line = lines[0];
        let rest = lines.drop_first();
        match package.outcome_of(line) {
            Outcome::Applied => reading(package.applied(line), rest, answers),
            Outcome::Duplicate => reading(package, rest, answers).after_report(
                DiagnosticView { kind: DiagnosticKind::Duplicate, line },
            ),
            Outcome::Unknown => reading(package, rest, answers).after_report(
                DiagnosticView { kind: DiagnosticKind::Unknown, line },
            ),
            Outcome::Fetch => match next_answer(answers) {
                EventView::Icon(icon) => reading(
                    PackageView { icon, ..package },
                    rest,
                    answers.skip(1),
                ).after_asking(value_of(line)),
                other => Reading::end(package, Some(failure_of(other))).after_asking(
                    value_of(line),
                ),
            },
        }
    }
}

/// What resolving the package at `url` comes to, where the request for the
/// metadata is answered by `metadata` and the requests for an icon by
/// `answers` in order: the lines of the decoded metadata are read against
/// the blank descriptor of `url`.
pub open spec fn resolution(url: LocationView, metadata: EventView, answers: Seq<EventView>) -> Reading {
    match metadata {
        EventView::Metadata(bytes) => if valid_utf8(bytes) {
            reading(PackageView::blank(url), lines(decode_utf8(bytes)), answers)
        } else {
            Reading::end(PackageView::blank(url), Some(LoadError::Decode))
        },
        other => Reading::end(PackageView::blank(url), Some(failure_of(other))),
    }
}

/// The lines of the given category among `lines`, in order.
pub open spec fn of_kind(lines: Seq<Seq<char>>, kind: LineKind) -> Seq<Seq<char>>
    decreases lines.len(),
{
    if lines.len() == 0 {
        Seq::empty()
    } else if kind_of(lines[0]) == kind {
        seq![lines[0]] + of_kind(lines.drop_first(), kind)
    } else {
        of_kind(lines.drop_first(), kind)
    }
}

/// The values of the lines of the given category among `lines`, in order.
pub open spec fn values_of(lines: Seq<Seq<char>>, kind: LineKind) -> Seq<Seq<char>>
    decreases lines.len(),
{
    if lines.len() == 0 {
        Seq::empty()
    } else if kind_of(lines[0]) == kind {
        seq![value_of(lines[0])] + values_of(lines.drop_first(), kind)
    } else {
        values_of(lines.drop_first(), kind)
    }
}

/// The first name among `lines` that is not empty, or the empty text where
/// there is none.
pub open spec fn first_name(lines: Seq<Seq<char>>) -> Seq<char>
    decreases lines.len(),
{
    if lines.len() == 0 {
        Seq::empty()
    } else if kind_of(lines[0]) == LineKind::Name && value_of(lines[0]).len() > 0 {
        value_of(lines[0])
    } else {
        first_name(lines.drop_first())
    }
}

/// The lines that `reports` report for the given reason, in order.
pub open spec fn reported_as(reports: Seq<DiagnosticView>, kind: DiagnosticKind) -> Seq<Seq<char>>
    decreases reports.len(),
{
    if reports.len() == 0 {
        Seq::empty()
    } else if reports[0].kind == kind {
        seq![reports[0].line] + reported_as(reports.drop_first(), kind)
    } else {
        reported_as(reports.drop_first(), kind)
    }
}

/// Reading never touches the location or the identifier, and keeps a name
/// and an icon that are there. A reading that comes to its end has added
/// the values of the author lines to the authors and those of the
/// description lines to the descriptions, each in the order of the lines and
/// with nothing left out or merged; has for name the one that was there or
/// else the first name among the lines that is not empty; and has reported
/// as unknown exactly the lines that start with no known key, in their
/// order.
pub proof fn lemma_reading(package: PackageView, lines: Seq<Seq<char>>, answers: Seq<EventView>)
    ensures
        reading(package, lines, answers).package.url == package.url,
        reading(package, lines, answers).package.id == package.id,
        package.name.len() > 0 ==> reading(package, lines, answers).package.name == package.name,
        package.icon.data.len() > 0 ==> reading(package, lines, answers).package.icon
            == package.icon,
        reading(package, lines, answers).failure is None ==> {
            &&& reading(package, lines, answers).package.authors == package.authors + values_of(
                lines,
                LineKind::Author,
            )
            &&& reading(package, lines, answers).package.descriptions == package.descriptions
                + values_of(lines, LineKind::Description)
            &&& package.name.len() == 0 ==> reading(package, lines, answers).package.name
                == first_name(lines)
            &&& reported_as(reading(package, lines, answers).reports, DiagnosticKind::Unknown)
                == of_kind(lines, LineKind::Unknown)
        },
    decreases lines.len(),
{
    let r = reading(package, lines, answers);
    if lines.len() == 0 {
        assert(package.authors + Seq::<Seq<char>>::empty() =~= package.authors);
        assert(package.descriptions + Seq::<Seq<char>>::empty() =~= package.descriptions);
    } else {
        let line = lines[0];
        let rest = lines.drop_first();
        match package.outcome_of(line) {
            Outcome::Applied => {
                let next = package.applied(line);
                lemma_reading(next, rest, answers);
                if r.failure is None {
                    assert(r.package.authors =~= package.authors + values_of(
                        lines,
                        LineKind::Author,
                    ));
                    assert(r.package.descriptions =~= package.descriptions + values_of(
                        lines,
                        LineKind::Description,
                    ));
                }
            },
            Outcome::Duplicate => {
                lemma_reading(package, rest, answers);
                let d = DiagnosticView { kind: DiagnosticKind::Duplicate, line };
                let tail = reading(package, rest, answers);
                assert(r.reports.drop_first() =~= tail.reports);
            },
            Outcome::Unknown => {
                lemma_reading(package, rest, answers);
                let tail = reading(package, rest, answers);
                assert(r.reports.drop_first() =~= tail.reports);
            },
            Outcome::Fetch => {
                if let EventView::Icon(icon) = next_answer(answers) {
                    lemma_reading(PackageView { icon, ..package }, rest, answers.skip(1));
                }
            },
        }
    }
}

/// Reading asks for at most one icon for each icon line, and makes at most
/// one report or request for each line; it fails only over an icon; and the
/// icon it ends with is the one it began with or one that came back when an
/// icon was asked for. Every report is on one of the
/// lines, and never on an author or a description; one that says unknown is
/// on a line without a known key, one that says duplicate on a name or an
/// icon.
pub proof fn lemma_reading_bounds(
    package: PackageView,
    lines: Seq<Seq<char>>,
    answers: Seq<EventView>,
)
    ensures
        reading(package, lines, answers).asked.len() <= of_kind(lines, LineKind::Icon).len(),
        reading(package, lines, answers).reports.len() + reading(package, lines, answers).asked.len()
            <= lines.len(),
        reading(package, lines, answers).failure is Some ==> reading(
            package,
            lines,
            answers,
        ).asked.len() >= 1,
        reading(package, lines, answers).package.icon == package.icon || answers.contains(
            EventView::Icon(reading(package, lines, answers).package.icon),
        ),
        forall|i: int|
            0 <= i < reading(package, lines, answers).reports.len() ==> {
                let report = #[trigger] reading(package, lines, answers).reports[i];
                &&& lines.contains(report.line)
                &&& report.kind == DiagnosticKind::Unknown ==> kind_of(report.line)
                    == LineKind::Unknown
                &&& report.kind == DiagnosticKind::Duplicate ==> kind_of(report.line)
                    == LineKind::Name || kind_of(report.line) == LineKind::Icon
            },
    decreases lines.len(),
{
    let r = reading(package, lines, answers);
    if lines.len() > 0 {
        let line = lines[0];
        let rest = lines.drop_first();
        let tail = match package.outcome_of(line) {
            Outcome::Applied => reading(package.applied(line), rest, answers),
            Outcome::Fetch => match next_answer(answers) {
                EventView::Icon(icon) => reading(
                    PackageView { icon, ..package },
                    rest,
                    answers.skip(1),
                ),
                _ => Reading::end(package, None),
            },
            _ => reading(package, rest, answers),
        };
        match package.outcome_of(line) {
            Outcome::Applied => {
                lemma_reading_bounds(package.applied(line), rest, answers);
            },
            Outcome::Fetch => {
                if let EventView::Icon(icon) = next_answer(answers) {
                    lemma_reading_bounds(PackageView { icon, ..package }, rest, answers.skip(1));
                    assert(answers[0] == EventView::Icon(icon));
                    if r.package.icon != icon {
                        let later = EventView::Icon(r.package.icon);
                        let k = choose|k: int|
                            0 <= k < answers.skip(1).len() && answers.skip(1)[k] == later;
                        assert(answers[k + 1] == later);
                    }
                }
            },
            _ => {
                lemma_reading_bounds(package, rest, answers);
            },
        }
        assert forall|i: int| 0 <= i < r.reports.len() implies {
            let report = #[trigger] r.reports[i];
            &&& lines.contains(report.line)
            &&& report.kind == DiagnosticKind::Unknown ==> kind_of(report.line)
                == LineKind::Unknown
            &&& report.kind == DiagnosticKind::Duplicate ==> kind_of(report.line)
                == LineKind::Name || kind_of(report.line) == LineKind::Icon
        } by {
            let report = r.reports[i];
            if r.reports.len() == tail.reports.len() + 1 && i == 0 {
                assert(report.line == lines[0]);
            } else {
                let j = if r.reports.len() == tail.reports.len() {
                    i
                } else {
                    i - 1
                };
                assert(report == tail.reports[j]);
                assert(rest.contains(report.line));
                let k = choose|k: int| 0 <= k < rest.len() && rest[k] == report.line;
                assert(lines[k + 1] == report.line);
            }
        }
    }
}

/// Reading lines of which none names an icon asks for no icon, cannot fail
/// and leaves the icon as it was.
pub proof fn lemma_reading_without_icon(
    package: PackageView,
    lines: Seq<Seq<char>>,
    answers: Seq<EventView>,
)
    requires
        of_kind(lines, LineKind::Icon).len() == 0,
    ensures
        reading(package, lines, answers).failure is None,
        reading(package, lines, answers).asked.len() == 0,
        reading(package, lines, answers).package.icon == package.icon,
    decreases lines.len(),
{
    if lines.len() > 0 {
        let line = lines[0];
        let rest = lines.drop_first();
        assert(kind_of(line) != LineKind::Icon);
        lemma_applied_keeps(package, line);
        lemma_reading_without_icon(package.applied(line), rest, answers);
        lemma_reading_without_icon(package, rest, answers);
    }
}

/// What a resolution finds. The descriptor has the location as given and
/// the identifier that the location's path gives: its last segment, or
/// nothing where the path has none. A resolution that is not given up has
/// read well-formed metadata and has for name the first name in it that is
/// not empty, for authors and descriptions the values of its author and
/// description lines in their order, and has reported as unknown exactly
/// its lines without a known key. Without metadata the resolution is given
/// up and the descriptor stays blank.
pub proof fn lemma_resolution(url: LocationView, metadata: EventView, answers: Seq<EventView>)
    ensures
        resolution(url, metadata, answers).package.url == url,
        resolution(url, metadata, answers).package.id == identifier_of(url.path_parts),
        url.path_parts.len() > 0 ==> resolution(url, metadata, answers).package.id
            == url.path_parts.last(),
        url.path_parts.len() == 0 ==> resolution(url, metadata, answers).package.id.len() == 0,
        resolution(url, metadata, answers).failure is None ==> {
            &&& metadata matches EventView::Metadata(bytes)
            &&& valid_utf8(bytes)
            &&& resolution(url, metadata, answers).package.name == first_name(
                lines(decode_utf8(bytes)),
            )
            &&& resolution(url, metadata, answers).package.authors == values_of(
                lines(decode_utf8(bytes)),
                LineKind::Author,
            )
            &&& resolution(url, metadata, answers).package.descriptions == values_of(
                lines(decode_utf8(bytes)),
                LineKind::Description,
            )
            &&& reported_as(resolution(url, metadata, answers).reports, DiagnosticKind::Unknown)
                == of_kind(lines(decode_utf8(bytes)), LineKind::Unknown)
        },
        !(metadata matches EventView::Metadata(bytes) && valid_utf8(bytes)) ==> {
            &&& resolution(url, metadata, answers).failure is Some
            &&& resolution(url, metadata, answers).package == PackageView::blank(url)
            &&& resolution(url, metadata, answers).reports.len() == 0
            &&& resolution(url, metadata, answers).asked.len() == 0
        },
{
    if let EventView::Metadata(bytes) = metadata {
        if valid_utf8(bytes) {
            let blank = PackageView::blank(url);
            let all = lines(decode_utf8(bytes));
            lemma_reading(blank, all, answers);
            assert(blank.authors + values_of(all, LineKind::Author) =~= values_of(
                all,
                LineKind::Author,
            ));
            assert(blank.descriptions + values_of(all, LineKind::Description) =~= values_of(
                all,
                LineKind::Description,
            ));
        }
    }
}

} // verus!
