//! The package descriptor and the plain values it is made of.

use vstd::prelude::*;
use crate::decimal::decimal;
use crate::decimal::decimal_digits;
use crate::line::classify;
use crate::line::kind_of;
use crate::line::value;
use crate::line::value_of;
use crate::line::LineKind;

verus! {

/// Where a package lives: the address in its written form, and the segments
/// of its path in order.
#[derive(Debug, PartialEq, Eq)]
pub struct Location {
    /// The address as it is written.
    pub string: String,
    /// The segments of the address's path, first to last.
    pub path_parts: Vec<String>,
}

/// What a `Location` stands for in contracts.
pub struct LocationView {
    pub string: Seq<char>,
    pub path_parts: Seq<Seq<char>>,
}

impl View for Location {
    type V = LocationView;

    open spec fn view(&self) -> LocationView {
        LocationView { string: self.string@, path_parts: self.path_parts.deep_view() }
    }
}

impl Clone for Location {
    fn clone(&self) -> (res: Self)
        ensures
            res@ == self@,
    {
        let res = Location { string: self.string.clone(), path_parts: self.path_parts.clone() };
        assert(res.path_parts.deep_view() =~= self.path_parts.deep_view());
        res
    }
}

/// A decoded image: its pixels and its size.
#[derive(Debug, PartialEq, Eq)]
pub struct Bitmap {
    /// The pixels. An image without pixels counts as no image.
    pub data: Vec<u32>,
    pub width: usize,
    pub height: usize,
}

/// What a `Bitmap` stands for in contracts.
pub struct BitmapView {
    pub data: Seq<u32>,
    pub width: nat,
    pub height: nat,
}

impl BitmapView {
    /// The image without pixels and of size zero.
    pub open spec fn empty() -> BitmapView {
        BitmapView { data: Seq::empty(), width: 0, height: 0 }
    }
}

impl View for Bitmap {
    type V = BitmapView;

    open spec fn view(&self) -> BitmapView {
        BitmapView { data: self.data@, width: self.width as nat, height: self.height as nat }
    }
}

impl Clone for Bitmap {
    fn clone(&self) -> (res: Self)
        ensures
            res@ == self@,
    {
        Bitmap { data: self.data.clone(), width: self.width, height: self.height }
    }
}

impl Bitmap {
    /// The image without pixels and of size zero.
    pub fn new() -> (b: Bitmap)
        ensures
            b@ == BitmapView::empty(),
    {
        Bitmap { data: Vec::new(), width: 0, height: 0 }
    }
}

/// The descriptor of one package.
#[derive(Debug, PartialEq, Eq)]
pub struct Package {
    /// Where the package lives, as it was given.
    pub url: Location,
    /// The short name that the location gives: the last segment of its
    /// path. The metadata has no say in it.
    pub id: String,
    /// The name for readers: the first name in the metadata that is not
    /// empty.
    pub name: String,
    /// The icon: the image that an icon line led to. Once it has pixels it
    /// stays.
    pub icon: Bitmap,
    /// One entry for each author line, in the order of the lines.
    pub authors: Vec<String>,
    /// One entry for each description line, in the order of the lines.
    pub descriptions: Vec<String>,
}

/// What a `Package` stands for in contracts.
pub struct PackageView {
    pub url: LocationView,
    pub id: Seq<char>,
    pub name: Seq<char>,
    pub icon: BitmapView,
    pub authors: Seq<Seq<char>>,
    pub descriptions: Seq<Seq<char>>,
}

impl View for Package {
    type V = PackageView;

    open spec fn view(&self) -> PackageView {
        PackageView {
            url: self.url@,
            id: self.id@,
            name: self.name@,
            icon: self.icon@,
            authors: self.authors.deep_view(),
            descriptions: self.descriptions.deep_view(),
        }
    }
}

impl Clone for Package {
    fn clone(&self) -> (res: Self)
        ensures
            res@ == self@,
    {
        let res = Package {
            url: self.url.clone(),
            id: self.id.clone(),
            name: self.name.clone(),
            icon: self.icon.clone(),
            authors: self.authors.clone(),
            descriptions: self.descriptions.clone(),
        };
        assert(res.authors.deep_view() =~= self.authors.deep_view());
        assert(res.descriptions.deep_view() =~= self.descriptions.deep_view());
        res
    }
}

/// The identifier that a path gives: its last segment, or the empty text
/// where the path has no segment.
pub open spec fn identifier_of(path_parts: Seq<Seq<char>>) -> Seq<char> {
    if path_parts.len() > 0 {
        path_parts.last()
    } else {
        Seq::empty()
    }
}

impl PackageView {
    /// The descriptor of the package at `url` before any metadata is read.
    pub open spec fn blank(url: LocationView) -> PackageView {
        PackageView {
            url,
            id: identifier_of(url.path_parts),
            name: Seq::empty(),
            icon: BitmapView::empty(),
            authors: Seq::empty(),
            descriptions: Seq::empty(),
        }
    }
}

/// What a metadata line comes to when it is read against a descriptor.
#[derive(Clone, Copy, Debug, PartialEq, Eq, Structural)]
pub enum Outcome {
    /// The line's value went into the descriptor.
    Applied,
    /// The line names an icon and the descriptor has none: the image at the
    /// line's value is to be fetched. The descriptor is as it was.
    Fetch,
    /// The line sets a field that holds a value already. The descriptor is as
    /// it was.
    Duplicate,
    /// The line starts with no known key. The descriptor is as it was.
    Unknown,
}

impl PackageView {
    /// What `line` comes to when it is read against this descriptor.
    pub open spec fn outcome_of(self, line: Seq<char>) -> Outcome {
        match kind_of(line) {
            LineKind::Name => if self.name.len() == 0 {
                Outcome::Applied
            } else {
                Outcome::Duplicate
            },
            LineKind::Icon => if self.icon.data.len() == 0 {
                Outcome::Fetch
            } else {
                Outcome::Duplicate
            },
            LineKind::Author => Outcome::Applied,
            LineKind::Description => Outcome::Applied,
            LineKind::Unknown => Outcome::Unknown,
        }
    }

    /// This descriptor after `line` was read against it: a name goes into an
    /// empty name, an author and a description are added at the end of their
    /// lists, and every other line leaves the descriptor as it was.
    pub open spec fn applied(self, line: Seq<char>) -> PackageView {
        match kind_of(line) {
            LineKind::Name => if self.name.len() == 0 {
                PackageView { name: value_of(line), ..self }
            } else {
                self
            },
            LineKind::Author => PackageView { authors: self.authors.push(value_of(line)), ..self },
            LineKind::Description => PackageView {
                descriptions: self.descriptions.push(value_of(line)),
                ..self
            },
            LineKind::Icon => self,
            LineKind::Unknown => self,
        }
    }
}

/// A line that starts with no known key is reported as unknown and leaves
/// the descriptor as it was, whatever the descriptor holds.
pub proof fn lemma_unknown_line_changes_nothing(p: PackageView, line: Seq<char>)
    requires
        kind_of(line) == LineKind::Unknown,
    ensures
        p.outcome_of(line) == Outcome::Unknown,
        p.applied(line) == p,
{
}

/// Only a line that is applied changes the descriptor: one that is a
/// duplicate, unknown or waits for its icon leaves it as it was.
pub proof fn lemma_only_applied_lines_change(p: PackageView, line: Seq<char>)
    requires
        p.outcome_of(line) != Outcome::Applied,
    ensures
        p.applied(line) == p,
{
}

/// What a line comes to is decided by its text and by whether the
/// descriptor's name and icon are empty, and by nothing else.
pub proof fn lemma_outcome_is_stateless(p: PackageView, q: PackageView, line: Seq<char>)
    requires
        p.name.len() == 0 <==> q.name.len() == 0,
        p.icon.data.len() == 0 <==> q.icon.data.len() == 0,
    ensures
        p.outcome_of(line) == q.outcome_of(line),
{
}

/// Reading a line a second time comes to the same as the first time, with
/// one exception: a name that went into the empty name is a duplicate from
/// then on, unless it was empty itself.
pub proof fn lemma_read_again(p: PackageView, line: Seq<char>)
    ensures
        p.applied(line).outcome_of(line) == if p.outcome_of(line) == Outcome::Applied && kind_of(
            line,
        ) == LineKind::Name && value_of(line).len() > 0 {
            Outcome::Duplicate
        } else {
            p.outcome_of(line)
        },
{
}

/// Reading a line never touches the location, the identifier or the icon,
/// never replaces a name that is there, and keeps the authors and the
/// descriptions that are there, in their order, at the front of their lists.
pub proof fn lemma_applied_keeps(p: PackageView, line: Seq<char>)
    ensures
        p.applied(line).url == p.url,
        p.applied(line).id == p.id,
        p.applied(line).icon == p.icon,
        p.name.len() > 0 ==> p.applied(line).name == p.name,
        p.authors.is_prefix_of(p.applied(line).authors),
        p.descriptions.is_prefix_of(p.applied(line).descriptions),
{
    let q = p.applied(line);
    assert(p.authors =~= q.authors.subrange(0, p.authors.len() as int));
    assert(p.descriptions =~= q.descriptions.subrange(0, p.descriptions.len() as int));
}

/// One line of the form label, item, line break for each of `items`, in
/// order.
pub open spec fn labelled(label: Seq<char>, items: Seq<Seq<char>>) -> Seq<char>
    decreases items.len(),
{
    if items.len() == 0 {
        Seq::empty()
    } else {
        labelled(label, items.drop_last()) + label + items.last() + "\n"@
    }
}

impl PackageView {
    /// The descriptor written out for a reader: location, identifier, name
    /// and the icon's size, one line each, then a line for each author and
    /// one for each description.
    pub open spec fn dump(self) -> Seq<char> {
        "URL: "@ + self.url.string + "\n"@
            + "ID: "@ + self.id + "\n"@
            + "Name: "@ + self.name + "\n"@
            + "Icon: "@ + decimal_digits(self.icon.width) + "x"@ + decimal_digits(self.icon.height)
            + "\n"@
            + labelled("Author: "@, self.authors)
            + labelled("Description: "@, self.descriptions)
    }
}

/// Adds to `out` one line of the form label, item, line break for each of
/// `items`.
fn append_labelled(out: &mut String, label: &str, items: &Vec<String>)
    ensures
        final(out)@ == old(out)@ + labelled(label@, items.deep_view()),
{
    let ghost all = items.deep_view();
    let mut i: usize = 0;
    assert(all.take(0) =~= Seq::<Seq<char>>::empty());
    assert(out@ =~= old(out)@ + labelled(label@, all.take(0)));
    while i < items.len()
        invariant
            i <= items.len(),
            all == items.deep_view(),
            out@ == old(out)@ + labelled(label@, all.take(i as int)),
        decreases items.len() - i,
    {
        let ghost before = out@;
        out.append(label);
        out.append(items[i].as_str());
        out.append("\n");
        proof {
            let done = all.take(i + 1);
            assert(done.drop_last() =~= all.take(i as int));
            assert(done.last() == items[i as int]@);
            assert(out@ =~= old(out)@ + labelled(label@, done));
        }
        i = i + 1;
    }
    assert(all.take(items.len() as int) =~= all);
}

impl Package {
    /// The descriptor written out for a reader.
    pub fn d(&self) -> (out: String)
        ensures
            out@ == self@.dump(),
    {
        let mut out = String::from_str("URL: ");
        out.append(self.url.string.as_str());
        out.append("\n");
        out.append("ID: ");
        out.append(self.id.as_str());
        out.append("\n");
        out.append("Name: ");
        out.append(self.name.as_str());
        out.append("\n");
        out.append("Icon: ");
        out.append(decimal(self.icon.width).as_str());
        out.append("x");
        out.append(decimal(self.icon.height).as_str());
        out.append("\n");
        append_labelled(&mut out, "Author: ", &self.authors);
        append_labelled(&mut out, "Description: ", &self.descriptions);
        out
    }

    /// Reads one metadata line against this descriptor and says what it came
    /// to.
    pub fn apply(&mut self, line: &str) -> (outcome: Outcome)
        ensures
            outcome == old(self)@.outcome_of(line@),
            final(self)@ == old(self)@.applied(line@),
    {
        match classify(line) {
            LineKind::Name => {
                if self.name.as_str().is_empty() {
                    self.name = value(line);
                    Outcome::Applied
                } else {
                    Outcome::Duplicate
                }
            },
            LineKind::Icon => {
                if self.icon.data.len() == 0 {
                    Outcome::Fetch
                } else {
                    Outcome::Duplicate
                }
            },
            LineKind::Author => {
                let ghost before = self.authors.deep_view();
                self.authors.push(value(line));
                assert(self.authors.deep_view() =~= before.push(value_of(line@)));
                Outcome::Applied
            },
            LineKind::Description => {
                let ghost before = self.descriptions.deep_view();
                self.descriptions.push(value(line));
                assert(self.descriptions.deep_view() =~= before.push(value_of(line@)));
                Outcome::Applied
            },
            LineKind::Unknown => Outcome::Unknown,
        }
    }

    /// The descriptor of the package at `url` before any metadata is read:
    /// the location as given, the identifier its path gives, the rest empty.
    pub fn blank(url: &Location) -> (p: Package)
        ensures
            p@ == PackageView::blank(url@),
    {
        let mut id = String::new();
        let n: usize = url.path_parts.len();
        if n > 0 {
            id = url.path_parts[n - 1].clone();
        }
        let p = Package {
            url: url.clone(),
            id,
            name: String::new(),
            icon: Bitmap::new(),
            authors: Vec::new(),
            descriptions: Vec::new(),
        };
        assert(p.authors.deep_view() =~= Seq::<Seq<char>>::empty());
        assert(p.descriptions.deep_view() =~= Seq::<Seq<char>>::empty());
        p
    }
}

} // verus!
