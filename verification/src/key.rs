//! The grammar of a lockfile metadata key.
//!
//! A key names one package as `checksum <name> <version> (<source>)`. The
//! three fields are runs of one or more characters other than a line break.
//! A text may be read in several ways; the reading that counts is the one
//! that starts earliest and, from there, gives the longest name, then the
//! longest version, then the longest source.

use vstd::prelude::*;

verus! {

/// The literal text that opens a key.
pub open spec fn key_prefix() -> Seq<char> {
    seq!['c', 'h', 'e', 'c', 'k', 's', 'u', 'm', ' ']
}

/// One way to lay the key pattern over a text, given by four positions: where
/// the prefix starts, the space that ends the name, the space before the
/// opening bracket that ends the version, and the closing bracket that ends
/// the source.
pub struct KeySpan {
    pub start: int,
    pub name_end: int,
    pub version_end: int,
    pub source_end: int,
}

impl KeySpan {
    /// The pattern lies on `text` at these positions.
    pub open spec fn fits(self, text: Seq<char>) -> bool {
        &&& 0 <= self.start
        &&& self.start + 9 < self.name_end
        &&& self.name_end + 1 < self.version_end
        &&& self.version_end + 2 < self.source_end
        &&& self.source_end < text.len()
        &&& text.subrange(self.start, self.start + 9) == key_prefix()
        &&& text[self.name_end] == ' '
        &&& text[self.version_end] == ' '
        &&& text[self.version_end + 1] == '('
        &&& text[self.source_end] == ')'
        &&& forall|i: int| self.start + 9 <= i < self.source_end ==> text[i] != '\n'
    }

    /// This span is read sooner than `other`: it starts earlier, or starts at
    /// the same place with a longer name, or with the same name and a longer
    /// version, or with the same name and version and a longer source.
    pub open spec fn before(self, other: KeySpan) -> bool {
        ||| self.start < other.start
        ||| self.start == other.start && self.name_end > other.name_end
        ||| self.start == other.start && self.name_end == other.name_end && self.version_end
            > other.version_end
        ||| self.start == other.start && self.name_end == other.name_end && self.version_end
            == other.version_end && self.source_end > other.source_end
    }

    /// The name that this span marks on `text`.
    pub open spec fn name(self, text: Seq<char>) -> Seq<char> {
        text.subrange(self.start + 9, self.name_end)
    }

    /// The version that this span marks on `text`.
    pub open spec fn version(self, text: Seq<char>) -> Seq<char> {
        text.subrange(self.name_end + 1, self.version_end)
    }

    /// The source that this span marks on `text`.
    pub open spec fn source(self, text: Seq<char>) -> Seq<char> {
        text.subrange(self.version_end + 2, self.source_end)
    }
}

/// `span` is the reading of `text`: it fits, and it comes before every other
/// span that fits.
pub open spec fn is_reading(text: Seq<char>, span: KeySpan) -> bool {
    &&& span.fits(text)
    &&& forall|other: KeySpan| #[trigger] other.fits(text) ==> other == span || span.before(other)
}

/// The three fields that a key holds.
pub struct KeyFields {
    pub name: Seq<char>,
    pub version: Seq<char>,
    pub source: Seq<char>,
}

/// The fields of the reading of `text`, or `None` where the pattern lies
/// nowhere on it.
pub open spec fn key_fields(text: Seq<char>) -> Option<KeyFields> {
    if exists|span: KeySpan| is_reading(text, span) {
        let span = choose|span: KeySpan| is_reading(text, span);
        Some(
            KeyFields {
                name: span.name(text),
                version: span.version(text),
                source: span.source(text),
            },
        )
    } else {
        None
    }
}

/// A text has at most one reading.
pub proof fn lemma_reading_unique(text: Seq<char>, a: KeySpan, b: KeySpan)
    requires
        is_reading(text, a),
        is_reading(text, b),
    ensures
        a == b,
{
    assert(b.fits(text));
    assert(a.fits(text));
}

/// The fields of a text follow from any span known to be its reading.
pub proof fn lemma_fields_of_reading(text: Seq<char>, span: KeySpan)
    requires
        is_reading(text, span),
    ensures
        key_fields(text) == Some(
            KeyFields {
                name: span.name(text),
                version: span.version(text),
                source: span.source(text),
            },
        ),
{
    let chosen = choose|s: KeySpan| is_reading(text, s);
    lemma_reading_unique(text, chosen, span);
}

/// Where no span fits, there are no fields.
pub proof fn lemma_no_fit_no_fields(text: Seq<char>)
    requires
        forall|span: KeySpan| !#[trigger] span.fits(text),
    ensures
        key_fields(text) is None,
{
}

/// A field of one or more characters, none of them a space or a line break.
pub open spec fn plain_field(field: Seq<char>) -> bool {
    &&& field.len() > 0
    &&& forall|i: int| 0 <= i < field.len() ==> field[i] != ' ' && field[i] != '\n'
}

/// The key that is written for three fields: `checksum <name> <version> (<source>)`.
pub open spec fn key_text(name: Seq<char>, version: Seq<char>, source: Seq<char>) -> Seq<char> {
    key_prefix() + name + seq![' '] + version + seq![' ', '('] + source + seq![')']
}

/// A key written for three plain fields reads back as those fields.
pub proof fn lemma_key_reads_back(name: Seq<char>, version: Seq<char>, source: Seq<char>)
    requires
        plain_field(name),
        plain_field(version),
        plain_field(source),
    ensures
        key_fields(key_text(name, version, source)) == Some(KeyFields { name, version, source }),
{
    let text = key_text(name, version, source);
    let name_end: int = 9 + name.len() as int;
    let version_end: int = name_end + 1 + version.len();
    let source_end: int = version_end + 2 + source.len();
    let span = KeySpan { start: 0, name_end, version_end, source_end };
    assert(text.len() == source_end + 1);
    assert forall|i: int| 0 <= i < 9 implies text[i] == key_prefix()[i] by {}
    assert forall|i: int| 0 <= i < name.len() implies text[9 + i] == name[i] by {}
    assert(text[name_end] == ' ');
    assert forall|i: int| 0 <= i < version.len() implies text[name_end + 1 + i] == version[i] by {}
    assert(text[version_end] == ' ');
    assert(text[version_end + 1] == '(');
    assert forall|i: int| 0 <= i < source.len() implies text[version_end + 2 + i] == source[i] by {}
    assert(text[source_end] == ')');
    // Past the prefix, the only spaces are the two that part the fields.
    assert forall|i: int| 9 <= i < text.len() && text[i] == ' ' implies i == name_end || i
        == version_end by {
        if i < name_end {
            assert(text[9 + (i - 9)] == name[i - 9]);
        } else if name_end < i < version_end {
            assert(text[name_end + 1 + (i - name_end - 1)] == version[i - name_end - 1]);
        } else if version_end + 1 < i < source_end {
            assert(text[version_end + 2 + (i - version_end - 2)] == source[i - version_end - 2]);
        }
    }
    assert forall|i: int| 9 <= i < source_end implies text[i] != '\n' by {
        if i < name_end {
            assert(text[9 + (i - 9)] == name[i - 9]);
        } else if name_end < i < version_end {
            assert(text[name_end + 1 + (i - name_end - 1)] == version[i - name_end - 1]);
        } else if version_end + 1 < i {
            assert(text[version_end + 2 + (i - version_end - 2)] == source[i - version_end - 2]);
        }
    }
    assert(text.subrange(0, 9) =~= key_prefix());
    assert(span.fits(text));
    assert forall|other: KeySpan| #[trigger] other.fits(text) implies other == span || span.before(
        other,
    ) by {
        if other.start == 0 {
            assert(text[other.name_end] == ' ');
            assert(text[other.version_end] == ' ');
        }
    }
    lemma_fields_of_reading(text, span);
    assert(span.name(text) =~= name);
    assert(span.version(text) =~= version);
    assert(span.source(text) =~= source);
}

/// Whether the key prefix stands in `text` at position `at`.
fn prefix_at(text: &Vec<char>, at: usize) -> (found: bool)
    requires
        at <= text@.len(),
    ensures
        found == (at + 9 <= text@.len() && text@.subrange(at as int, at + 9) == key_prefix()),
{
    if text.len() - at < 9 {
        return false;
    }
    let found = text[at] == 'c' && text[at + 1] == 'h' && text[at + 2] == 'e' && text[at + 3] == 'c'
        && text[at + 4] == 'k' && text[at + 5] == 's' && text[at + 6] == 'u' && text[at + 7] == 'm'
        && text[at + 8] == ' ';
    proof {
        let piece = text@.subrange(at as int, at + 9);
        if found {
            assert(piece =~= key_prefix());
        } else {
            if piece == key_prefix() {
                assert(piece[0] == 'c' && piece[1] == 'h' && piece[2] == 'e' && piece[3] == 'c'
                    && piece[4] == 'k' && piece[5] == 's' && piece[6] == 'u' && piece[7] == 'm'
                    && piece[8] == ' ');
            }
        }
    }
    found
}

/// The end of the line that position `from` stands on: the first line break
/// at or after `from`, or the end of the text.
fn line_end(text: &Vec<char>, from: usize) -> (end: usize)
    requires
        from <= text@.len(),
    ensures
        from <= end <= text@.len(),
        end < text@.len() ==> text@[end as int] == '\n',
        forall|i: int| from <= i < end ==> text@[i] != '\n',
{
    let mut end: usize = from;
    while end < text.len() && text[end] != '\n'
        invariant
            from <= end <= text@.len(),
            forall|i: int| from <= i < end ==> text@[i] != '\n',
        decreases text@.len() - end,
    {
        end += 1;
    }
    end
}

/// The last position in `lo..hi` that holds `wanted`.
fn last_char(text: &Vec<char>, lo: usize, hi: usize, wanted: char) -> (found: Option<usize>)
    requires
        hi <= text@.len(),
    ensures
        match found {
            Some(at) => lo <= at < hi && text@[at as int] == wanted && forall|i: int|
                at < i < hi ==> text@[i] != wanted,
            None => forall|i: int| lo <= i < hi ==> text@[i] != wanted,
        },
{
    let mut at: usize = hi;
    while at > lo
        invariant
            at <= hi <= text@.len(),
            forall|i: int| at <= i < hi && lo <= i ==> text@[i] != wanted,
        decreases at,
    {
        at -= 1;
        if text[at] == wanted {
            return Some(at);
        }
    }
    None
}

/// A space followed by an opening bracket stands in `text` at position `at`.
pub open spec fn opening_at(text: Seq<char>, at: int) -> bool {
    text[at] == ' ' && text[at + 1] == '('
}

/// The last position in `lo..hi` that holds a space followed by an opening
/// bracket.
fn last_opening(text: &Vec<char>, lo: usize, hi: usize) -> (found: Option<usize>)
    requires
        hi < text@.len(),
    ensures
        match found {
            Some(at) => lo <= at < hi && opening_at(text@, at as int) && forall|i: int|
                at < i < hi ==> !opening_at(text@, i),
            None => forall|i: int| lo <= i < hi ==> !opening_at(text@, i),
        },
{
    let mut at: usize = hi;
    while at > lo
        invariant
            at <= hi < text@.len(),
            forall|i: int| at <= i < hi && lo <= i ==> !opening_at(text@, i),
        decreases at,
    {
        at -= 1;
        if text[at] == ' ' && text[at + 1] == '(' {
            return Some(at);
        }
    }
    None
}

/// The best span that starts at `start`, where the prefix is known to stand.
fn span_from(text: &Vec<char>, start: usize) -> (found: Option<(usize, usize, usize)>)
    requires
        start + 9 <= text.len(),
        text@.subrange(start as int, start + 9) == key_prefix(),
    ensures
        match found {
            Some((name_end, version_end, source_end)) => {
                let span = KeySpan {
                    start: start as int,
                    name_end: name_end as int,
                    version_end: version_end as int,
                    source_end: source_end as int,
                };
                &&& span.fits(text@)
                &&& forall|other: KeySpan| #[trigger]
                    other.fits(text@) && other.start == start ==> other == span || span.before(
                        other,
                    )
            },
            None => forall|other: KeySpan| #[trigger] other.fits(text@) ==> other.start != start,
        },
{
    let lo: usize = start + 9;
    let end = line_end(text, lo);
    // Every span from here ends its source on this line.
    assert forall|other: KeySpan| #[trigger] other.fits(text@) && other.start == start implies lo
        < other.source_end < end by {
        if other.source_end >= end {
            assert(text@[end as int] == '\n');
        }
    }
    let closing = last_char(text, lo, end, ')');
    if closing.is_none() {
        assert forall|other: KeySpan| #[trigger] other.fits(text@) implies other.start
            != start by {
            if other.start == start {
                assert(text@[other.source_end] == ')');
            }
        }
        return None;
    }
    let source_end = closing.unwrap();
    assert forall|other: KeySpan| #[trigger] other.fits(text@) && other.start == start implies
        other.source_end <= source_end by {
        assert(text@[other.source_end] == ')');
    }
    if source_end - lo < 2 {
        return None;
    }
    let opening = last_opening(text, lo, source_end - 2);
    if opening.is_none() {
        assert forall|other: KeySpan| #[trigger] other.fits(text@) implies other.start
            != start by {
            if other.start == start {
                assert(opening_at(text@, other.version_end));
            }
        }
        return None;
    }
    let version_end = opening.unwrap();
    assert forall|other: KeySpan| #[trigger] other.fits(text@) && other.start == start implies
        other.version_end <= version_end by {
        assert(opening_at(text@, other.version_end));
    }
    let space = last_char(text, lo + 1, version_end - 1, ' ');
    if space.is_none() {
        assert forall|other: KeySpan| #[trigger] other.fits(text@) implies other.start
            != start by {
            if other.start == start {
                assert(text@[other.name_end] == ' ');
            }
        }
        return None;
    }
    let name_end = space.unwrap();
    assert forall|other: KeySpan| #[trigger] other.fits(text@) && other.start == start implies
        other.name_end <= name_end by {
        assert(text@[other.name_end] == ' ');
    }
    Some((name_end, version_end, source_end))
}

/// The positions of the reading of `text`.
pub fn find_reading(text: &Vec<char>) -> (found: Option<(usize, usize, usize, usize)>)
    ensures
        match found {
            Some((start, name_end, version_end, source_end)) => is_reading(
                text@,
                KeySpan {
                    start: start as int,
                    name_end: name_end as int,
                    version_end: version_end as int,
                    source_end: source_end as int,
                },
            ),
            None => forall|span: KeySpan| !#[trigger] span.fits(text@),
        },
{
    let mut start: usize = 0;
    while start < text.len()
        invariant
            start <= text@.len(),
            forall|span: KeySpan| #[trigger] span.fits(text@) ==> span.start >= start,
        decreases text@.len() - start,
    {
        if prefix_at(text, start) {
            match span_from(text, start) {
                Some((name_end, version_end, source_end)) => {
                    return Some((start, name_end, version_end, source_end));
                },
                None => {},
            }
        }
        start += 1;
    }
    None
}

} // verus!
