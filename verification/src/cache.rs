//! Where a package's archive lies in the local cache.

use crate::lockfile::{Crate, CrateView};
use vstd::prelude::*;
use vstd::string::*;

verus! {

/// The path of a package's archive:
/// `{cargo_dir}/registry/cache/{registry_name}/{crate_name}-{version}.crate`.
pub open spec fn cache_path_text(
    cargo_dir: Seq<char>,
    registry_name: Seq<char>,
    crate_name: Seq<char>,
    version: Seq<char>,
) -> Seq<char> {
    cargo_dir + "/registry/cache/"@ + registry_name + "/"@ + crate_name + "-"@ + version
        + ".crate"@
}

/// What a download is made for: a package with a name, a version and a
/// checksum, and the path at which its archive is kept.
pub trait CrateDownloadTarget {
    spec fn spec_crate_name(&self) -> Seq<char>;

    spec fn spec_version(&self) -> Seq<char>;

    spec fn spec_checksum(&self) -> Option<Seq<char>>;

    spec fn spec_target_path(&self) -> Seq<char>;

    fn crate_name(&self) -> (name: &str)
        ensures
            name@ == self.spec_crate_name(),
    ;

    fn version(&self) -> (version: &str)
        ensures
            version@ == self.spec_version(),
    ;

    fn checksum(&self) -> (checksum: &str)
        requires
            self.spec_checksum() is Some,
        ensures
            self.spec_checksum() == Some(checksum@),
    ;

    fn target_path(&self) -> (path: String)
        ensures
            path@ == self.spec_target_path(),
    ;
}

/// A package record together with the cache directory and the registry's
/// directory name under it.
#[derive(Debug)]
pub struct CargoCacheCrate<'a> {
    _crate: Crate<'a, 'a, 'a, 'a>,
    cargo_dir: &'a str,
    registry_name: &'a str,
}

/// What a cache target holds, as plain text.
pub struct CargoCacheCrateView {
    pub record: CrateView,
    pub cargo_dir: Seq<char>,
    pub registry_name: Seq<char>,
}

impl<'a> View for CargoCacheCrate<'a> {
    type V = CargoCacheCrateView;

    closed spec fn view(&self) -> CargoCacheCrateView {
        CargoCacheCrateView {
            record: self._crate@,
            cargo_dir: self.cargo_dir@,
            registry_name: self.registry_name@,
        }
    }
}

impl<'a> CargoCacheCrate<'a> {
    pub fn new(
        _crate: Crate<'a, 'a, 'a, 'a>,
        cargo_dir: &'a str,
        registry_name: &'a str,
    ) -> (target: Self)
        ensures
            target@.record == _crate@,
            target@.cargo_dir == cargo_dir@,
            target@.registry_name == registry_name@,
    {
        CargoCacheCrate { _crate, cargo_dir, registry_name }
    }

    pub fn cargo_crate(&self) -> (record: &Crate<'a, 'a, 'a, 'a>)
        ensures
            record@ == self@.record,
    {
        &self._crate
    }

    /// Path to where the cache file of the crate should be stored.
    pub fn cache_path(&self) -> (path: String)
        ensures
            path@ == cache_path_text(
                self@.cargo_dir,
                self@.registry_name,
                self@.record.crate_name,
                self@.record.version,
            ),
    {
        let mut path = String::from_str(self.cargo_dir);
        path.append("/registry/cache/");
        path.append(self.registry_name);
        path.append("/");
        path.append(self._crate.crate_name);
        path.append("-");
        path.append(self._crate.version);
        path.append(".crate");
        path
    }
}

impl<'a> CrateDownloadTarget for CargoCacheCrate<'a> {
    open spec fn spec_crate_name(&self) -> Seq<char> {
        self@.record.crate_name
    }

    open spec fn spec_version(&self) -> Seq<char> {
        self@.record.version
    }

    open spec fn spec_checksum(&self) -> Option<Seq<char>> {
        self@.record.checksum
    }

    open spec fn spec_target_path(&self) -> Seq<char> {
        cache_path_text(
            self@.cargo_dir,
            self@.registry_name,
            self@.record.crate_name,
            self@.record.version,
        )
    }

    fn crate_name(&self) -> (name: &str) {
        self._crate.crate_name
    }

    fn version(&self) -> (version: &str) {
        self._crate.version
    }

    fn checksum(&self) -> (checksum: &str) {
        self._crate.checksum.unwrap()
    }

    fn target_path(&self) -> (path: String) {
        self.cache_path()
    }
}

/// Text that is put before and after two pieces makes equal wholes only of
/// equal pieces.
pub proof fn lemma_between_injective(
    before: Seq<char>,
    a: Seq<char>,
    b: Seq<char>,
    after: Seq<char>,
)
    requires
        before + a + after == before + b + after,
    ensures
        a == b,
{
    let whole_a = before + a + after;
    let whole_b = before + b + after;
    assert(whole_a.len() == before.len() + a.len() + after.len());
    assert(whole_b.len() == before.len() + b.len() + after.len());
    assert forall|i: int| 0 <= i < a.len() implies a[i] == b[i] by {
        assert(whole_a[before.len() + i] == a[i]);
        assert(whole_b[before.len() + i] == b[i]);
    }
    assert(a =~= b);
}

/// The cache path depends on each of its four parts: where one part is
/// changed and the other three are kept, the path changes.
pub proof fn lemma_cache_path_depends_on_each_part(
    cargo_dir: Seq<char>,
    registry_name: Seq<char>,
    crate_name: Seq<char>,
    version: Seq<char>,
    other: Seq<char>,
)
    ensures
        other != cargo_dir ==> cache_path_text(other, registry_name, crate_name, version)
            != cache_path_text(cargo_dir, registry_name, crate_name, version),
        other != registry_name ==> cache_path_text(cargo_dir, other, crate_name, version)
            != cache_path_text(cargo_dir, registry_name, crate_name, version),
        other != crate_name ==> cache_path_text(cargo_dir, registry_name, other, version)
            != cache_path_text(cargo_dir, registry_name, crate_name, version),
        other != version ==> cache_path_text(cargo_dir, registry_name, crate_name, other)
            != cache_path_text(cargo_dir, registry_name, crate_name, version),
{
    let head = "/registry/cache/"@;
    let slash = "/"@;
    let dash = "-"@;
    let tail = ".crate"@;
    let none = Seq::<char>::empty();
    if cache_path_text(other, registry_name, crate_name, version) == cache_path_text(
        cargo_dir,
        registry_name,
        crate_name,
        version,
    ) {
        let after = head + registry_name + slash + crate_name + dash + version + tail;
        assert(none + other + after =~= cache_path_text(other, registry_name, crate_name, version));
        assert(none + cargo_dir + after =~= cache_path_text(
            cargo_dir,
            registry_name,
            crate_name,
            version,
        ));
        lemma_between_injective(none, other, cargo_dir, after);
    }
    if cache_path_text(cargo_dir, other, crate_name, version) == cache_path_text(
        cargo_dir,
        registry_name,
        crate_name,
        version,
    ) {
        let before = cargo_dir + head;
        let after = slash + crate_name + dash + version + tail;
        assert(before + other + after =~= cache_path_text(cargo_dir, other, crate_name, version));
        assert(before + registry_name + after =~= cache_path_text(
            cargo_dir,
            registry_name,
            crate_name,
            version,
        ));
        lemma_between_injective(before, other, registry_name, after);
    }
    if cache_path_text(cargo_dir, registry_name, other, version) == cache_path_text(
        cargo_dir,
        registry_name,
        crate_name,
        version,
    ) {
        let before = cargo_dir + head + registry_name + slash;
        let after = dash + version + tail;
        assert(before + other + after =~= cache_path_text(
            cargo_dir,
            registry_name,
            other,
            version,
        ));
        assert(before + crate_name + after =~= cache_path_text(
            cargo_dir,
            registry_name,
            crate_name,
            version,
        ));
        lemma_between_injective(before, other, crate_name, after);
    }
    if cache_path_text(cargo_dir, registry_name, crate_name, other) == cache_path_text(
        cargo_dir,
        registry_name,
        crate_name,
        version,
    ) {
        let before = cargo_dir + head + registry_name + slash + crate_name + dash;
        assert(before + other + tail =~= cache_path_text(
            cargo_dir,
            registry_name,
            crate_name,
            other,
        ));
        assert(before + version + tail =~= cache_path_text(
            cargo_dir,
            registry_name,
            crate_name,
            version,
        ));
        lemma_between_injective(before, other, version, tail);
    }
}

} // verus!
