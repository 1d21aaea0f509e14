//! Classification of one metadata line by its key.

use vstd::prelude::*;

verus! {

/// The category of a metadata line: the key it starts with, or `Unknown`.
#[derive(Clone, Copy, Debug, PartialEq, Eq, Structural)]
pub enum LineKind {
    Name,
    Icon,
    Author,
    Description,
    Unknown,
}

/// The key, with its `=`, that a line of the given category starts with.
/// `Unknown` has none.
pub open spec fn prefix_of(kind: LineKind) -> Seq<char> {
    match kind {
        LineKind::Name => "name="@,
        LineKind::Icon => "icon="@,
        LineKind::Author => "author="@,
        LineKind::Description => "description="@,
        LineKind::Unknown => Seq::empty(),
    }
}

/// The category of `line`. The keys are tried in a fixed order and the first
/// that the line starts with decides.
pub open spec fn kind_of(line: Seq<char>) -> LineKind {
    if prefix_of(LineKind::Name).is_prefix_of(line) {
        LineKind::Name
    } else if prefix_of(LineKind::Icon).is_prefix_of(line) {
        LineKind::Icon
    } else if prefix_of(LineKind::Author).is_prefix_of(line) {
        LineKind::Author
    } else if prefix_of(LineKind::Description).is_prefix_of(line) {
        LineKind::Description
    } else {
        LineKind::Unknown
    }
}

/// What follows the key in `line`, with nothing trimmed. For a line of
/// unknown category that is the whole line.
pub open spec fn value_of(line: Seq<char>) -> Seq<char> {
    line.skip(prefix_of(kind_of(line)).len() as int)
}

/// A line is its key followed by its value.
pub proof fn lemma_line_is_key_and_value(line: Seq<char>)
    ensures
        line == prefix_of(kind_of(line)) + value_of(line),
{
    let key = prefix_of(kind_of(line));
    assert(key.is_prefix_of(line)) by {
        if kind_of(line) == LineKind::Unknown {
            assert(key =~= line.subrange(0, 0));
        }
    }
    assert(line =~= key + line.skip(key.len() as int));
}

/// A key followed by any text is a line of that key's category, and the text
/// is its value: nothing is trimmed and nothing escaped.
pub proof fn lemma_key_then_value(kind: LineKind, text: Seq<char>)
    requires
        kind != LineKind::Unknown,
    ensures
        kind_of(prefix_of(kind) + text) == kind,
        value_of(prefix_of(kind) + text) == text,
{
    reveal_strlit("name=");
    reveal_strlit("icon=");
    reveal_strlit("author=");
    reveal_strlit("description=");
    let key = prefix_of(kind);
    let line = key + text;
    assert(key =~= line.subrange(0, key.len() as int));
    assert(key.is_prefix_of(line));
    assert forall|other: LineKind| other != LineKind::Unknown && other != kind implies !prefix_of(
        other,
    ).is_prefix_of(line) by {
        let p = prefix_of(other);
        if p.is_prefix_of(line) {
            assert(p[0] == line.subrange(0, p.len() as int)[0]);
            assert(line[0] == key[0]);
        }
    }
    assert(kind_of(line) == kind);
    assert(line.skip(key.len() as int) =~= text);
}

/// An empty line starts with no key.
pub proof fn lemma_empty_line_is_unknown()
    ensures
        kind_of(Seq::empty()) == LineKind::Unknown,
{
    reveal_strlit("name=");
    reveal_strlit("icon=");
    reveal_strlit("author=");
    reveal_strlit("description=");
}

impl LineKind {
    /// The key, with its `=`, of this category; empty for `Unknown`.
    pub fn prefix(self) -> (p: &'static str)
        ensures
            p@ == prefix_of(self),
    {
        match self {
            LineKind::Name => "name=",
            LineKind::Icon => "icon=",
            LineKind::Author => "author=",
            LineKind::Description => "description=",
            LineKind::Unknown => {
                proof {
                    reveal_strlit("");
                }
                let p = "";
                assert(p@ =~= Seq::<char>::empty());
                p
            },
        }
    }
}

/// Whether `line`, which has `len` characters, starts with `prefix`.
fn starts_with(line: &str, len: usize, prefix: &str) -> (b: bool)
    requires
        len == line@.len(),
    ensures
        b == prefix@.is_prefix_of(line@),
{
    let m: usize = prefix.unicode_len();
    if m > len {
        return false;
    }
    let mut i: usize = 0;
    while i < m
        invariant
            i <= m <= len,
            m == prefix@.len(),
            len == line@.len(),
            forall|j: int| 0 <= j < i ==> line@[j] == prefix@[j],
        decreases m - i,
    {
        if line.get_char(i) != prefix.get_char(i) {
            assert(line@.subrange(0, m as int)[i as int] != prefix@[i as int]);
            return false;
        }
        i = i + 1;
    }
    assert(prefix@ =~= line@.subrange(0, m as int));
    true
}

/// Classifies `line` by the key it starts with.
pub fn classify(line: &str) -> (kind: LineKind)
    ensures
        kind == kind_of(line@),
{
    let len: usize = line.unicode_len();
    if starts_with(line, len, LineKind::Name.prefix()) {
        LineKind::Name
    } else if starts_with(line, len, LineKind::Icon.prefix()) {
        LineKind::Icon
    } else if starts_with(line, len, LineKind::Author.prefix()) {
        LineKind::Author
    } else if starts_with(line, len, LineKind::Description.prefix()) {
        LineKind::Description
    } else {
        LineKind::Unknown
    }
}

/// The value of `line`: what follows its key.
pub fn value(line: &str) -> (v: String)
    ensures
        v@ == value_of(line@),
{
    let len: usize = line.unicode_len();
    let kind = classify(line);
    let skip: usize = kind.prefix().unicode_len();
    assert(skip <= len);
    let rest = line.substring_char(skip, len);
    assert(rest@ =~= value_of(line@));
    String::from_str(rest)
}

} // verus!
