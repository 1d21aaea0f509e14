//! The machine held against the direct account of a resolution: what holds
//! of every state it passes through, that every step brings it nearer to
//! its end, and that a driver who hands back what was asked for gets from
//! it exactly what reading the lines in order gives.

use vstd::prelude::*;
use vstd::utf8::decode_utf8;
use vstd::utf8::valid_utf8;
use crate::line::kind_of;
use crate::line::value_of;
use crate::line::LineKind;
use crate::package::identifier_of;
use crate::package::lemma_applied_keeps;
use crate::package::LocationView;
use crate::package::Outcome;
use crate::package::PackageView;
use crate::reading::failure_of;
use crate::reading::next_answer;
use crate::reading::reading;
use crate::reading::resolution;
use crate::reading::Reading;
use crate::resolver::ActionView;
use crate::resolver::EventView;
use crate::resolver::LoadError;
use crate::resolver::Phase;
use crate::resolver::ResolverView;
use crate::text::lines;

verus! {

impl ResolverView {
    /// What holds of every state that a resolution passes through: the
    /// cursor lies within the lines, the identifier is the one that the
    /// location gives, nothing is filled in before the metadata is there, an
    /// icon is waited for only while the descriptor has none, and the
    /// resolution is done only when every line was read.
    pub open spec fn consistent(self) -> bool {
        &&& self.cursor <= self.lines.len()
        &&& self.package.id == identifier_of(self.package.url.path_parts)
        &&& (self.phase == Phase::Created || self.phase == Phase::AwaitMetadata) ==> self
            == ResolverView { phase: self.phase, ..ResolverView::start(self.package.url) }
        &&& self.phase == Phase::AwaitIcon ==> {
            &&& self.package.icon.data.len() == 0
            &&& self.cursor > 0
            &&& kind_of(self.lines[self.cursor - 1]) == LineKind::Icon
        }
        &&& self.phase == Phase::Done ==> self.cursor == self.lines.len()
    }

    /// What a step may change in the descriptor: never the location or the
    /// identifier, never a name or an icon that is there, and authors and
    /// descriptions only by adding at the end.
    pub open spec fn extends(self, before: ResolverView) -> bool {
        &&& self.package.url == before.package.url
        &&& self.package.id == before.package.id
        &&& before.package.name.len() > 0 ==> self.package.name == before.package.name
        &&& before.package.icon.data.len() > 0 ==> self.package.icon == before.package.icon
        &&& before.package.authors.is_prefix_of(self.package.authors)
        &&& before.package.descriptions.is_prefix_of(self.package.descriptions)
    }
}

/// A resolution starts in a consistent state.
pub proof fn lemma_start_is_consistent(url: LocationView)
    ensures
        ResolverView::start(url).consistent(),
{
}

/// Reading on from a consistent state ends in a consistent state, keeps the
/// lines, changes the descriptor only by filling it, and asks the driver
/// only for a report or an icon, each time having read at least one more
/// line, or says that it is done.
pub proof fn lemma_run(s: ResolverView)
    requires
        s.cursor <= s.lines.len(),
        s.package.id == identifier_of(s.package.url.path_parts),
    ensures
        s.run().0.consistent(),
        s.run().0.extends(s),
        s.run().0.lines == s.lines,
        s.run().0.package.icon == s.package.icon,
        match s.run().1 {
            ActionView::Done => s.run().0.phase == Phase::Done,
            ActionView::Report(diagnostic) => {
                &&& s.run().0.phase == Phase::Running
                &&& s.run().0.cursor > s.cursor
                &&& diagnostic.line == s.lines[s.run().0.cursor - 1]
            },
            ActionView::FetchIcon(address) => {
                &&& s.run().0.phase == Phase::AwaitIcon
                &&& s.run().0.cursor > s.cursor
                &&& address == value_of(s.lines[s.run().0.cursor - 1])
            },
            _ => false,
        },
    decreases s.lines.len() - s.cursor,
{
    if s.cursor < s.lines.len() {
        let line = s.lines[s.cursor as int];
        lemma_applied_keeps(s.package, line);
        let next = ResolverView {
            package: s.package.applied(line),
            cursor: s.cursor + 1,
            phase: Phase::Running,
            ..s
        };
        if s.package.outcome_of(line) == Outcome::Applied {
            lemma_run(next);
            let t = next.run().0;
            assert(s.package.authors.is_prefix_of(t.package.authors)) by {
                assert(s.package.authors =~= t.package.authors.subrange(
                    0,
                    s.package.authors.len() as int,
                ));
            }
            assert(s.package.descriptions.is_prefix_of(t.package.descriptions)) by {
                assert(s.package.descriptions =~= t.package.descriptions.subrange(
                    0,
                    s.package.descriptions.len() as int,
                ));
            }
        }
    } else {
        assert(s.package.authors =~= s.package.authors.subrange(0, s.package.authors.len() as int));
        assert(s.package.descriptions =~= s.package.descriptions.subrange(
            0,
            s.package.descriptions.len() as int,
        ));
    }
}

/// Every step leads from a consistent state to a consistent state and
/// changes the descriptor only by filling it: the location and the
/// identifier stay, a name and an icon that are there stay, and authors and
/// descriptions are only added at the end.
pub proof fn lemma_step(s: ResolverView, event: EventView)
    requires
        s.consistent(),
    ensures
        s.step(event).0.consistent(),
        s.step(event).0.extends(s),
        s.step(event).0.cursor >= s.cursor,
{
    let t = s.step(event).0;
    match s.phase {
        Phase::AwaitMetadata => {
            if let EventView::Metadata(bytes) = event {
                if valid_utf8(bytes) {
                    lemma_run(
                        ResolverView {
                            lines: lines(decode_utf8(bytes)),
                            cursor: 0,
                            phase: Phase::Running,
                            ..s
                        },
                    );
                }
            }
        },
        Phase::Running => {
            if event is Continue {
                lemma_run(s);
            }
        },
        Phase::AwaitIcon => {
            if let EventView::Icon(icon) = event {
                lemma_run(
                    ResolverView {
                        package: PackageView { icon, ..s.package },
                        phase: Phase::Running,
                        ..s
                    },
                );
            }
        },
        _ => {},
    }
    assert(s.package.authors.is_prefix_of(t.package.authors)) by {
        assert(s.package.authors =~= t.package.authors.subrange(0, s.package.authors.len() as int));
    }
    assert(s.package.descriptions.is_prefix_of(t.package.descriptions)) by {
        assert(s.package.descriptions =~= t.package.descriptions.subrange(
            0,
            s.package.descriptions.len() as int,
        ));
    }
}

impl ResolverView {
    /// How many lines are still to be read.
    pub open spec fn remaining(self) -> nat {
        if self.cursor <= self.lines.len() {
            (self.lines.len() - self.cursor) as nat
        } else {
            0
        }
    }
}

/// How many requests for the metadata a resolution in this phase may still
/// make, counting the one it may be about to make.
pub open spec fn phase_rank(phase: Phase) -> nat {
    match phase {
        Phase::Created => 2,
        Phase::AwaitMetadata => 1,
        _ => 0,
    }
}

/// Whether `action` ends a resolution.
pub open spec fn is_last(action: ActionView) -> bool {
    action is Done || action is Fail
}

/// Every step brings a resolution nearer to its end: it leaves a phase
/// before the lines for good, or reads at least one more line, or ends the
/// resolution.
pub proof fn lemma_step_progress(s: ResolverView, event: EventView)
    ensures
        phase_rank(s.step(event).0.phase) < phase_rank(s.phase) || (phase_rank(
            s.step(event).0.phase,
        ) == phase_rank(s.phase) && (s.step(event).0.remaining() < s.remaining() || (s.step(
            event,
        ).0.remaining() == s.remaining() && is_last(s.step(event).1)))),
{
    match s.phase {
        Phase::AwaitMetadata => {
            if let EventView::Metadata(bytes) = event {
                if valid_utf8(bytes) {
                    lemma_run_progress(
                        ResolverView {
                            lines: lines(decode_utf8(bytes)),
                            cursor: 0,
                            phase: Phase::Running,
                            ..s
                        },
                    );
                }
            }
        },
        Phase::Running => {
            if event is Continue {
                lemma_run_progress(s);
            }
        },
        Phase::AwaitIcon => {
            if let EventView::Icon(icon) = event {
                lemma_run_progress(
                    ResolverView {
                        package: PackageView { icon, ..s.package },
                        phase: Phase::Running,
                        ..s
                    },
                );
            }
        },
        _ => {},
    }
}

/// Reading on keeps the lines and ends past the metadata; it either ends
/// the resolution, with no line unread that was read before, or has read at
/// least one more line.
pub proof fn lemma_run_progress(s: ResolverView)
    ensures
        s.run().0.lines == s.lines,
        phase_rank(s.run().0.phase) == 0,
        s.run().0.remaining() < s.remaining() || (s.run().0.remaining() == s.remaining()
            && s.run().1 is Done),
    decreases s.lines.len() - s.cursor,
{
    if s.cursor < s.lines.len() {
        let line = s.lines[s.cursor as int];
        if s.package.outcome_of(line) == Outcome::Applied {
            lemma_run_progress(
                ResolverView {
                    package: s.package.applied(line),
                    cursor: s.cursor + 1,
                    phase: Phase::Running,
                    ..s
                },
            );
        }
    }
}

/// What a resolution comes to when it stands in state `s`, has just asked
/// for `action`, and is driven on to its end: the driver answers the request
/// for the metadata by `metadata`, the requests for an icon by `answers` in
/// order, and each report by letting the machine go on.
pub open spec fn driven(
    s: ResolverView,
    action: ActionView,
    metadata: EventView,
    answers: Seq<EventView>,
) -> Reading
    decreases phase_rank(s.phase), s.remaining(), (if is_last(action) {
        0nat
    } else {
        1nat
    }),
{
    match action {
        ActionView::Done => Reading::end(s.package, None),
        ActionView::Fail(error) => Reading::end(s.package, Some(error)),
        ActionView::FetchMetadata(_) => {
            proof {
                lemma_step_progress(s, metadata);
            }
            driven(s.step(metadata).0, s.step(metadata).1, metadata, answers)
        },
        ActionView::Report(diagnostic) => {
            proof {
                lemma_step_progress(s, EventView::Continue);
            }
            driven(
                s.step(EventView::Continue).0,
                s.step(EventView::Continue).1,
                metadata,
                answers,
            ).after_report(diagnostic)
        },
        ActionView::FetchIcon(address) => {
            proof {
                lemma_step_progress(s, next_answer(answers));
            }
            driven(
                s.step(next_answer(answers)).0,
                s.step(next_answer(answers)).1,
                metadata,
                answers.skip(1),
            ).after_asking(address)
        },
    }
}

/// Driving a resolution on from where it reads its lines comes to what
/// reading the lines that are left comes to.
pub proof fn lemma_driven_reads_on(s: ResolverView, metadata: EventView, answers: Seq<EventView>)
    requires
        s.cursor <= s.lines.len(),
    ensures
        driven(s.run().0, s.run().1, metadata, answers) == reading(
            s.package,
            s.lines.skip(s.cursor as int),
            answers,
        ),
    decreases s.lines.len() - s.cursor,
{
    reveal_with_fuel(driven, 2);
    let left = s.lines.skip(s.cursor as int);
    if s.cursor < s.lines.len() {
        let line = s.lines[s.cursor as int];
        let next = ResolverView {
            package: s.package.applied(line),
            cursor: s.cursor + 1,
            phase: Phase::Running,
            ..s
        };
        assert(left[0] == line);
        assert(left.drop_first() =~= s.lines.skip(next.cursor as int));
        match s.package.outcome_of(line) {
            Outcome::Applied => {
                lemma_driven_reads_on(next, metadata, answers);
            },
            Outcome::Duplicate => {
                lemma_driven_reads_on(next, metadata, answers);
                assert(next.step(EventView::Continue) == next.run());
            },
            Outcome::Unknown => {
                lemma_driven_reads_on(next, metadata, answers);
                assert(next.step(EventView::Continue) == next.run());
            },
            Outcome::Fetch => {
                let waiting = ResolverView { phase: Phase::AwaitIcon, ..next };
                let answer = next_answer(answers);
                if let EventView::Icon(icon) = answer {
                    let resumed = ResolverView {
                        package: PackageView { icon, ..waiting.package },
                        phase: Phase::Running,
                        ..waiting
                    };
                    lemma_driven_reads_on(resumed, metadata, answers.skip(1));
                    assert(waiting.step(answer) == resumed.run());
                } else {
                    assert(waiting.step(answer) == waiting.fail(failure_of(answer)));
                }
            },
        }
    } else {
        assert(left =~= Seq::<Seq<char>>::empty());
    }
}

/// The machine, driven from its start to its end, comes to the resolution
/// of the location: whatever the metadata and the icons are, the descriptor,
/// the reports, the icons asked for and the failure are those that reading
/// the metadata's lines in order gives.
pub proof fn lemma_driven_is_resolution(
    url: LocationView,
    metadata: EventView,
    answers: Seq<EventView>,
)
    ensures
        driven(
            ResolverView::start(url).step(EventView::Continue).0,
            ResolverView::start(url).step(EventView::Continue).1,
            metadata,
            answers,
        ) == resolution(url, metadata, answers),
{
    reveal_with_fuel(driven, 2);
    let start = ResolverView::start(url);
    let asked = start.step(EventView::Continue).0;
    assert(start.step(EventView::Continue).1 is FetchMetadata);
    if let EventView::Metadata(bytes) = metadata {
        if valid_utf8(bytes) {
            let fresh = ResolverView {
                lines: lines(decode_utf8(bytes)),
                cursor: 0,
                phase: Phase::Running,
                ..asked
            };
            lemma_driven_reads_on(fresh, metadata, answers);
            assert(fresh.lines.skip(0) =~= fresh.lines);
            assert(asked.step(metadata) == fresh.run());
        } else {
            assert(asked.step(metadata) == asked.fail(LoadError::Decode));
        }
    } else {
        assert(asked.step(metadata) == asked.fail(failure_of(metadata)));
    }
}

} // verus!
