//! Package records and the lockfile that lists them.

use crate::key::{
    find_reading, key_fields, lemma_fields_of_reading, lemma_no_fit_no_fields, KeySpan,
};
use crate::text::{chars_of, str_eq};
use vstd::prelude::*;
use vstd::string::*;

verus! {

/// Why a lockfile could not be turned into package records.
#[derive(Debug, Clone, Copy, PartialEq, Eq, Structural)]
pub enum ParseError {
    /// An entry's key is not of the form `checksum <name> <version> (<source>)`.
    MalformedKey,
    /// Two entries have the same key.
    DuplicateKey,
}

/// What a package record holds, as plain text.
pub struct CrateView {
    pub crate_name: Seq<char>,
    pub version: Seq<char>,
    pub source: Seq<char>,
    pub checksum: Option<Seq<char>>,
}

/// The text of an optional string slice.
pub open spec fn opt_str_view(s: Option<&str>) -> Option<Seq<char>> {
    match s {
        Some(s) => Some(s@),
        None => None,
    }
}

/// The text of an optional string.
pub open spec fn opt_string_view(s: Option<String>) -> Option<Seq<char>> {
    match s {
        Some(s) => Some(s@),
        None => None,
    }
}

/// The value that stands for "no checksum" in a lockfile entry.
pub open spec fn no_checksum() -> Seq<char> {
    "<none>"@
}

/// The source that marks a package of the registry index.
pub open spec fn registry_source() -> Seq<char> {
    "registry+https://github.com/rust-lang/crates.io-index"@
}

/// The checksum that an entry's value declares.
pub open spec fn declared_checksum(value: Seq<char>) -> Option<Seq<char>> {
    if value == no_checksum() {
        None
    } else {
        Some(value)
    }
}

/// The record that one lockfile entry describes, or `None` where its key is
/// malformed.
pub open spec fn parsed_entry(key: Seq<char>, value: Seq<char>) -> Option<CrateView> {
    match key_fields(key) {
        Some(fields) => Some(
            CrateView {
                crate_name: fields.name,
                version: fields.version,
                source: fields.source,
                checksum: declared_checksum(value),
            },
        ),
        None => None,
    }
}

/// A record can be fetched: it has a checksum and comes from the registry index.
pub open spec fn is_fetchable(record: CrateView) -> bool {
    record.checksum is Some && record.source == registry_source()
}

/// A package record that borrows its text.
#[derive(Debug, Clone, Copy, PartialEq, Eq)]
pub struct Crate<'a, 'b, 'c, 'd> {
    pub crate_name: &'a str,
    pub version: &'b str,
    pub source: &'c str,
    pub checksum: Option<&'d str>,
}

impl<'a, 'b, 'c, 'd> View for Crate<'a, 'b, 'c, 'd> {
    type V = CrateView;

    open spec fn view(&self) -> CrateView {
        CrateView {
            crate_name: self.crate_name@,
            version: self.version@,
            source: self.source@,
            checksum: opt_str_view(self.checksum),
        }
    }
}

impl<'a, 'b, 'c, 'd> Crate<'a, 'b, 'c, 'd> {
    pub fn new(
        crate_name: &'a str,
        version: &'b str,
        source: &'c str,
        checksum: Option<&'d str>,
    ) -> (record: Self)
        ensures
            record.crate_name == crate_name,
            record.version == version,
            record.source == source,
            record.checksum == checksum,
    {
        Crate { crate_name, version, source, checksum }
    }

    /// A copy of this record that owns its text.
    pub fn to_owned(&self) -> (owned: CrateOwned)
        ensures
            owned@ == self@,
    {
        let checksum = match self.checksum {
            Some(checksum) => Some(checksum.to_owned()),
            None => None,
        };
        CrateOwned {
            crate_name: self.crate_name.to_owned(),
            version: self.version.to_owned(),
            source: self.source.to_owned(),
            checksum,
        }
    }

    /// Reads one lockfile entry: `crate_part` is its key, `checksum` its value.
    ///
    /// The entry is accepted exactly when the key pattern lies somewhere on
    /// `crate_part`. The value `<none>` gives a record without a checksum; any
    /// other value is the checksum, as it stands.
    pub fn parse_from_parts<'cp: 'a + 'b + 'c>(
        crate_part: &'cp str,
        checksum: &'d str,
    ) -> (parsed: Result<Self, ParseError>)
        ensures
            match parsed {
                Ok(record) => parsed_entry(crate_part@, checksum@) == Some(record@),
                Err(error) => parsed_entry(crate_part@, checksum@) is None && error
                    == ParseError::MalformedKey,
            },
            parsed is Ok <==> exists|span: KeySpan| span.fits(crate_part@),
            parsed is Ok ==> (parsed->Ok_0.checksum is None <==> checksum@ == no_checksum()),
            parsed is Ok && checksum@ != no_checksum() ==> parsed->Ok_0.checksum == Some(checksum),
    {
        let chars = chars_of(crate_part);
        match find_reading(&chars) {
            Some((start, name_end, version_end, source_end)) => {
                let ghost span = KeySpan {
                    start: start as int,
                    name_end: name_end as int,
                    version_end: version_end as int,
                    source_end: source_end as int,
                };
                proof {
                    lemma_fields_of_reading(crate_part@, span);
                    assert(span.fits(crate_part@));
                }
                let crate_name = crate_part.substring_char(start + 9, name_end);
                let version = crate_part.substring_char(name_end + 1, version_end);
                let source = crate_part.substring_char(version_end + 2, source_end);
                let checksum = if str_eq(checksum, "<none>") {
                    None
                } else {
                    Some(checksum)
                };
                Ok(Crate { crate_name, version, source, checksum })
            },
            None => {
                proof {
                    lemma_no_fit_no_fields(crate_part@);
                }
                Err(ParseError::MalformedKey)
            },
        }
    }
}

/// A package record that owns its text.
#[derive(Debug, Clone, PartialEq, Eq)]
pub struct CrateOwned {
    pub crate_name: String,
    pub version: String,
    pub source: String,
    pub checksum: Option<String>,
}

impl View for CrateOwned {
    type V = CrateView;

    open spec fn view(&self) -> CrateView {
        CrateView {
            crate_name: self.crate_name@,
            version: self.version@,
            source: self.source@,
            checksum: opt_string_view(self.checksum),
        }
    }
}

impl CrateOwned {
    /// This record, borrowed.
    pub fn as_ref(&self) -> (record: Crate<'_, '_, '_, '_>)
        ensures
            record@ == self@,
    {
        let checksum = match &self.checksum {
            Some(checksum) => Some(checksum.as_str()),
            None => None,
        };
        Crate::new(self.crate_name.as_str(), self.version.as_str(), self.source.as_str(), checksum)
    }
}

/// The records that a list of borrowed records stands for.
pub open spec fn record_views(records: Seq<Crate<'_, '_, '_, '_>>) -> Seq<CrateView> {
    records.map_values(|record: Crate<'_, '_, '_, '_>| record@)
}

/// The text of a list of entries, each a key and a value.
pub open spec fn entry_views(entries: Seq<(String, String)>) -> Seq<(Seq<char>, Seq<char>)> {
    entries.map_values(|entry: (String, String)| (entry.0@, entry.1@))
}

/// No key occurs twice among the entries.
pub open spec fn keys_distinct(entries: Seq<(Seq<char>, Seq<char>)>) -> bool {
    forall|i: int, j: int| 0 <= i < j < entries.len() ==> entries[i].0 != entries[j].0
}

/// The entry at position `at` has a well-formed key.
pub open spec fn entry_parses(entries: Seq<(Seq<char>, Seq<char>)>, at: int) -> bool {
    parsed_entry(entries[at].0, entries[at].1) is Some
}

/// The records of all entries, in the entries' order, or `None` where some
/// entry has a malformed key.
pub open spec fn parsed_entries(entries: Seq<(Seq<char>, Seq<char>)>) -> Option<Seq<CrateView>> {
    if forall|at: int| 0 <= at < entries.len() ==> #[trigger] entry_parses(entries, at) {
        Some(
            Seq::new(
                entries.len(),
                |at: int| parsed_entry(entries[at].0, entries[at].1).unwrap(),
            ),
        )
    } else {
        None
    }
}

/// The records among `records` that can be fetched, in their order.
pub open spec fn fetchable(records: Seq<CrateView>) -> Seq<CrateView> {
    records.filter(|record: CrateView| is_fetchable(record))
}

/// The metadata table of a lockfile: entries of a key and a value, in the
/// order in which they were given, no key twice.
#[derive(Debug)]
pub struct CargoLockfile {
    metadata: Vec<(String, String)>,
}

impl View for CargoLockfile {
    type V = Seq<(Seq<char>, Seq<char>)>;

    closed spec fn view(&self) -> Seq<(Seq<char>, Seq<char>)> {
        entry_views(self.metadata@)
    }
}

impl CargoLockfile {
    #[verifier::type_invariant]
    spec fn keys_are_distinct(self) -> bool {
        keys_distinct(self@)
    }

    /// A lockfile of the given entries. Fails where two entries share a key.
    pub fn new(metadata: Vec<(String, String)>) -> (made: Result<Self, ParseError>)
        ensures
            match made {
                Ok(lockfile) => lockfile@ == entry_views(metadata@) && keys_distinct(lockfile@),
                Err(error) => error == ParseError::DuplicateKey && !keys_distinct(
                    entry_views(metadata@),
                ),
            },
    {
        let ghost entries = entry_views(metadata@);
        let mut j: usize = 0;
        while j < metadata.len()
            invariant
                j <= metadata@.len(),
                entries == entry_views(metadata@),
                forall|a: int, b: int| 0 <= a < b < j ==> entries[a].0 != entries[b].0,
            decreases metadata@.len() - j,
        {
            let mut i: usize = 0;
            while i < j
                invariant
                    i <= j < metadata@.len(),
                    entries == entry_views(metadata@),
                    forall|a: int| 0 <= a < i ==> entries[a].0 != entries[j as int].0,
                decreases j - i,
            {
                if str_eq(metadata[i].0.as_str(), metadata[j].0.as_str()) {
                    assert(entries[i as int].0 == entries[j as int].0);
                    return Err(ParseError::DuplicateKey);
                }
                i += 1;
            }
            j += 1;
        }
        Ok(CargoLockfile { metadata })
    }

    /// The number of entries. No two of them share a key.
    pub fn len(&self) -> (n: usize)
        ensures
            n == self@.len(),
            keys_distinct(self@),
    {
        proof {
            use_type_invariant(self);
        }
        self.metadata.len()
    }

    /// The entries, each a key and a value, in their order.
    pub fn metadata(&self) -> (metadata: &Vec<(String, String)>)
        ensures
            entry_views(metadata@) == self@,
    {
        &self.metadata
    }

    /// The record of every entry, in the entries' order. Fails where an
    /// entry's key is malformed.
    pub fn crates(&self) -> (records: Result<Vec<Crate<'_, '_, '_, '_>>, ParseError>)
        ensures
            match records {
                Ok(records) => parsed_entries(self@) == Some(record_views(records@)),
                Err(error) => parsed_entries(self@) is None && error == ParseError::MalformedKey,
            },
    {
        let mut records: Vec<Crate<'_, '_, '_, '_>> = Vec::new();
        let mut i: usize = 0;
        while i < self.metadata.len()
            invariant
                i <= self.metadata@.len(),
                records@.len() == i,
                forall|at: int| 0 <= at < i ==> #[trigger] entry_parses(self@, at),
                forall|at: int|
                    0 <= at < i ==> parsed_entry(self@[at].0, self@[at].1) == Some(
                        #[trigger] records@[at]@,
                    ),
            decreases self.metadata@.len() - i,
        {
            let entry = &self.metadata[i];
            match Crate::parse_from_parts(entry.0.as_str(), entry.1.as_str()) {
                Ok(record) => {
                    records.push(record);
                },
                Err(error) => {
                    assert(!entry_parses(self@, i as int));
                    return Err(error);
                },
            }
            i += 1;
        }
        assert(record_views(records@) =~= parsed_entries(self@).unwrap());
        Ok(records)
    }

    /// The records that can be fetched: those with a checksum whose source
    /// is the registry index, in the entries' order. A record of any other
    /// kind is left out. Fails where an entry's key is malformed.
    pub fn fetchable_crates(&self) -> (records: Result<Vec<Crate<'_, '_, '_, '_>>, ParseError>)
        ensures
            match records {
                Ok(records) => {
                    &&& parsed_entries(self@) is Some
                    &&& record_views(records@) == fetchable(parsed_entries(self@).unwrap())
                    &&& forall|at: int|
                        0 <= at < records@.len() ==> is_fetchable(#[trigger] records@[at]@)
                },
                Err(error) => parsed_entries(self@) is None && error == ParseError::MalformedKey,
            },
    {
        let all = match self.crates() {
            Ok(all) => all,
            Err(error) => { return Err(error); },
        };
        let ghost views = record_views(all@);
        let mut records: Vec<Crate<'_, '_, '_, '_>> = Vec::new();
        let mut i: usize = 0;
        while i < all.len()
            invariant
                i <= all@.len(),
                views == record_views(all@),
                record_views(records@) == fetchable(views.take(i as int)),
                forall|at: int| 0 <= at < records@.len() ==> is_fetchable(#[trigger] records@[at]@),
            decreases all@.len() - i,
        {
            let record = &all[i];
            let keep = record.checksum.is_some() && str_eq(
                record.source,
                "registry+https://github.com/rust-lang/crates.io-index",
            );
            proof {
                let ghost before = views.take(i as int);
                let ghost after = views.take(i + 1);
                assert(after.drop_last() == before);
                assert(after.last() == record@);
                reveal_with_fuel(Seq::filter, 2);
                assert(keep == is_fetchable(record@));
            }
            if keep {
                let ghost old_records = records@;
                records.push(*record);
                assert(record_views(records@) =~= record_views(old_records).push(record@));
            }
            i += 1;
        }
        assert(views.take(all@.len() as int) == views);
        Ok(records)
    }
}

} // verus!
