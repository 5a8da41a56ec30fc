//! The registry of managed interpreters, as far as its entries and anchors go.
//!
//! Beside every installed interpreter the registry keeps one anchor for each
//! minor version. The name of an anchor depends only on implementation, major,
//! minor and variant; its target is the patch that is current. Virtual
//! environments are bound to an anchor, so a patch upgrade, which installs the
//! new patch and retargets the anchor, reaches them without their being built
//! anew.

use crate::discovery::{
    download_request_matches, Platform, PythonDownloadRequest, VersionRequest,
};
use crate::downloads::{
    has_download, is_latest, key_views, latest_index, lemma_latest_is, plan_download,
};
use crate::implementation::{ImplementationName, ImplementationView, LenientImplementationName};
use crate::installation::Error;
use crate::key::{key_text, KeyView, PythonInstallationKey};
use crate::ordering::key_version;
use crate::platform::{exe_suffix_text, TargetFamily};
use crate::scan::{first_where, is_first_where, lemma_first_where, lemma_first_where_is};
use crate::text::{decimal, push_decimal};
use crate::version::{
    full_version_text, push_full_version, release_text, variant_suffix, version_before,
    PythonVariant,
};
use vstd::prelude::*;
use vstd::string::StringExecFns;

verus! {

/// The name of an anchor.
pub struct AnchorView {
    pub implementation: ImplementationView,
    pub major: u8,
    pub minor: u8,
    pub variant: PythonVariant,
}

/// The anchor that a key belongs to.
pub open spec fn anchor_of(k: KeyView) -> AnchorView {
    AnchorView {
        implementation: k.implementation,
        major: k.major,
        minor: k.minor,
        variant: k.variant,
    }
}

/// The registry: the keys that are installed, in the order in which they came,
/// and the targets of the anchors, in the order in which the anchors were made.
pub struct Registry {
    entries: Vec<PythonInstallationKey>,
    anchors: Vec<PythonInstallationKey>,
}

/// The mathematical value of a registry.
pub struct RegistryView {
    pub entries: Seq<KeyView>,
    pub targets: Seq<KeyView>,
}

/// A virtual environment as far as the registry is concerned: the anchor that
/// it is bound to.
pub struct VenvBinding {
    key: PythonInstallationKey,
}

/// Why an upgrade is refused.
#[derive(Clone, Copy, Debug, PartialEq, Eq, Hash, Structural)]
pub enum UpgradeError {
    /// A target names something other than a minor version.
    OnlyMinorVersions,
}

/// What an upgrade did.
pub struct UpgradeReport {
    /// The keys that were installed, in order.
    pub installed: Vec<PythonInstallationKey>,
    /// Whether nothing was installed because every minor version that the
    /// registry holds is on its latest patch. It is said only of an upgrade
    /// without targets.
    pub all_on_latest: bool,
}

impl View for Registry {
    type V = RegistryView;

    closed spec fn view(&self) -> RegistryView {
        RegistryView { entries: key_views(self.entries@), targets: key_views(self.anchors@) }
    }
}

/// Whether a key belongs to the anchor `name`.
pub open spec fn has_anchor(name: AnchorView) -> spec_fn(KeyView) -> bool {
    |k: KeyView| anchor_of(k) == name
}

/// A registry is well formed if no key is installed twice, every anchor leads
/// to an installed key, and no two anchors have the same name.
pub open spec fn well_formed(r: RegistryView) -> bool {
    &&& forall|i: int, j: int|
        0 <= i < j < r.entries.len() ==> #[trigger] r.entries[i] != #[trigger] r.entries[j]
    &&& forall|i: int| 0 <= i < r.targets.len() ==> r.entries.contains(#[trigger] r.targets[i])
    &&& forall|i: int, j: int|
        0 <= i < j < r.targets.len() ==> anchor_of(#[trigger] r.targets[i]) != anchor_of(
            #[trigger] r.targets[j],
        )
}

/// The key that the anchor `name` leads to.
pub open spec fn resolve(r: RegistryView, name: AnchorView) -> Option<KeyView> {
    let i = first_where(r.targets, has_anchor(name));
    if i < r.targets.len() {
        Some(r.targets[i])
    } else {
        None
    }
}

/// The registry after `k` was installed: `k` is an entry, and if its minor
/// version had no anchor, it has one now that leads to `k`.
pub open spec fn installed(r: RegistryView, k: KeyView) -> RegistryView {
    RegistryView {
        entries: if r.entries.contains(k) {
            r.entries
        } else {
            r.entries.push(k)
        },
        targets: if first_where(r.targets, has_anchor(anchor_of(k))) < r.targets.len() {
            r.targets
        } else {
            r.targets.push(k)
        },
    }
}

/// The registry after the anchor of `k` was retargeted to `k`.
pub open spec fn retargeted(r: RegistryView, k: KeyView) -> RegistryView {
    let i = first_where(r.targets, has_anchor(anchor_of(k)));
    RegistryView {
        entries: r.entries,
        targets: if i < r.targets.len() {
            r.targets.update(i, k)
        } else {
            r.targets.push(k)
        },
    }
}

/// The registry that a directory with these names stands for.
pub open spec fn scanned(names: Seq<Seq<char>>) -> RegistryView
    decreases names.len(),
{
    if names.len() == 0 {
        RegistryView { entries: Seq::<KeyView>::empty(), targets: Seq::<KeyView>::empty() }
    } else {
        let before = scanned(names.drop_last());
        match crate::key::parse_key(names.last()) {
            Ok(k) => installed(before, k),
            Err(_) => before,
        }
    }
}

/// The request for the newest patch of the minor version of `k` on the
/// platform of `k`, if the implementation of `k` is a known one.
pub open spec fn request_for(k: KeyView) -> Option<PythonDownloadRequest> {
    match k.implementation {
        ImplementationView::Known(name) => Some(
            PythonDownloadRequest {
                implementation: Some(name),
                version: Some(VersionRequest { major: k.major, minor: Some(k.minor), patch: None }),
                os: Some(k.os),
                arch: Some(k.arch),
                libc: Some(k.libc),
                variant: Some(k.variant),
            },
        ),
        ImplementationView::Unknown(_) => None,
    }
}

/// The requests of an upgrade without targets: one for each anchor.
pub open spec fn requests_of(targets: Seq<KeyView>) -> Seq<PythonDownloadRequest>
    decreases targets.len(),
{
    if targets.len() == 0 {
        Seq::<PythonDownloadRequest>::empty()
    } else {
        match request_for(targets.last()) {
            Some(q) => requests_of(targets.drop_last()).push(q),
            None => requests_of(targets.drop_last()),
        }
    }
}

/// Whether a target of an upgrade names a minor version and nothing beyond.
pub open spec fn minor_only(v: VersionRequest) -> bool {
    v.minor is Some && v.patch is None
}

/// The request for the newest patch of a minor version of CPython, in the
/// default variant, on the platform of the host.
pub open spec fn request_on(v: VersionRequest, host: Platform) -> PythonDownloadRequest {
    PythonDownloadRequest {
        implementation: Some(ImplementationName::CPython),
        version: Some(v),
        os: Some(host.os),
        arch: Some(host.arch),
        libc: Some(host.libc),
        variant: Some(PythonVariant::Default),
    }
}

/// The requests of an upgrade with targets: one for each target.
pub open spec fn requests_on(targets: Seq<VersionRequest>, host: Platform) -> Seq<
    PythonDownloadRequest,
> {
    Seq::new(targets.len(), |i: int| request_on(targets[i], host))
}

/// The registry after one request of an upgrade, and the key that was
/// installed for it. Nothing happens if the catalog has no entry for the
/// request, or if the anchor of the entry leads to a version that is not
/// earlier. Else the entry is installed and its anchor retargeted to it.
pub open spec fn upgraded(r: RegistryView, catalog: Seq<KeyView>, q: PythonDownloadRequest) -> (
    RegistryView,
    Option<KeyView>,
) {
    if !has_download(catalog, q) {
        (r, None)
    } else {
        let k = catalog[latest_index(catalog, q)];
        match resolve(r, anchor_of(k)) {
            Some(c) if !version_before(key_version(c), key_version(k)) => (r, None),
            _ => (retargeted(installed(r, k), k), Some(k)),
        }
    }
}

/// The registry after the requests of an upgrade, taken in order, and the keys
/// that were installed.
pub open spec fn upgraded_all(
    r: RegistryView,
    catalog: Seq<KeyView>,
    requests: Seq<PythonDownloadRequest>,
) -> (RegistryView, Seq<KeyView>)
    decreases requests.len(),
{
    if requests.len() == 0 {
        (r, Seq::<KeyView>::empty())
    } else {
        let before = upgraded_all(r, catalog, requests.drop_last());
        let step = upgraded(before.0, catalog, requests.last());
        (
            step.0,
            match step.1 {
                Some(k) => before.1.push(k),
                None => before.1,
            },
        )
    }
}

/// The line of a report for one key: ` + ` and the key, and, where the
/// executable is shown too, its name in brackets.
pub open spec fn change_line(k: KeyView, executable: Option<TargetFamily>) -> Seq<char> {
    " + "@ + key_text(k) + (match executable {
        Some(family) => " ("@ + "python"@ + decimal(k.major as nat) + seq!['.'] + decimal(
            k.minor as nat,
        ) + variant_suffix(k.variant) + exe_suffix_text(family) + ")"@,
        None => Seq::<char>::empty(),
    })
}

/// The first line of a report: what was installed, and how long it took.
pub open spec fn summary_line(keys: Seq<KeyView>, elapsed: Seq<char>) -> Seq<char> {
    if keys.len() == 1 {
        "Installed Python "@ + full_version_text(
            keys[0].major,
            keys[0].minor,
            keys[0].patch,
            keys[0].prerelease,
        ) + " in "@ + elapsed
    } else {
        "Installed "@ + decimal(keys.len()) + " versions in "@ + elapsed
    }
}

/// The lines of a report on installed keys; none if nothing was installed.
pub open spec fn report_lines(
    keys: Seq<KeyView>,
    elapsed: Seq<char>,
    executable: Option<TargetFamily>,
) -> Seq<Seq<char>> {
    if keys.len() == 0 {
        Seq::<Seq<char>>::empty()
    } else {
        seq![summary_line(keys, elapsed)] + Seq::new(
            keys.len(),
            |i: int| change_line(keys[i], executable),
        )
    }
}

/// The texts of a list of lines.
pub open spec fn line_texts(lines: Seq<String>) -> Seq<Seq<char>> {
    Seq::new(lines.len(), |i: int| lines[i]@)
}

/// Retargeting an anchor is all that a patch upgrade does to the environments
/// that are bound to it: afterwards the anchor of `k` leads to `k`, every other
/// anchor leads where it led before, and no entry has changed.
pub proof fn lemma_transparent_upgrade(r: RegistryView, k: KeyView, other: AnchorView)
    requires
        well_formed(r),
        r.entries.contains(k),
    ensures
        well_formed(retargeted(r, k)),
        retargeted(r, k).entries == r.entries,
        resolve(retargeted(r, k), anchor_of(k)) == Some(k),
        other != anchor_of(k) ==> resolve(retargeted(r, k), other) == resolve(r, other),
{
    let name = anchor_of(k);
    let p = has_anchor(name);
    let q = has_anchor(other);
    lemma_first_where(r.targets, p);
    lemma_first_where(r.targets, q);
    let i = first_where(r.targets, p);
    let j = first_where(r.targets, q);
    let after = retargeted(r, k).targets;
    if i < r.targets.len() {
        assert(after =~= r.targets.update(i, k));
        assert forall|x: int| 0 <= x < after.len() implies anchor_of(#[trigger] after[x])
            == anchor_of(r.targets[x]) by {}
        assert(is_first_where(after, p, i)) by {
            assert forall|x: int| 0 <= x < i implies !p(#[trigger] after[x]) by {
                assert(!p(r.targets[x]));
            }
        }
        lemma_first_where_is(after, p, i);
        if other != name {
            assert(is_first_where(after, q, j)) by {
                assert forall|x: int| 0 <= x < j implies !q(#[trigger] after[x]) by {
                    assert(!q(r.targets[x]));
                }
                if j < after.len() {
                    assert(q(r.targets[j]));
                    assert(j != i);
                }
            }
            lemma_first_where_is(after, q, j);
        }
        assert forall|x: int| 0 <= x < after.len() implies r.entries.contains(
            #[trigger] after[x],
        ) by {
            if x != i {
                assert(after[x] == r.targets[x]);
            }
        }
        assert forall|x: int, y: int| 0 <= x < y < after.len() implies anchor_of(
            #[trigger] after[x],
        ) != anchor_of(#[trigger] after[y]) by {
            assert(anchor_of(r.targets[x]) != anchor_of(r.targets[y]));
        }
    } else {
        let n = r.targets.len() as int;
        assert(after =~= r.targets.push(k));
        assert(is_first_where(after, p, n)) by {
            assert forall|x: int| 0 <= x < n implies !p(#[trigger] after[x]) by {
                assert(!p(r.targets[x]));
            }
        }
        lemma_first_where_is(after, p, n);
        if other != name {
            if j < n {
                assert(is_first_where(after, q, j)) by {
                    assert forall|x: int| 0 <= x < j implies !q(#[trigger] after[x]) by {
                        assert(!q(r.targets[x]));
                    }
                    assert(after[j] == r.targets[j]);
                }
                lemma_first_where_is(after, q, j);
            } else {
                assert(is_first_where(after, q, n + 1)) by {
                    assert forall|x: int| 0 <= x < n + 1 implies !q(#[trigger] after[x]) by {
                        if x < n {
                            assert(!q(r.targets[x]));
                        }
                    }
                }
                lemma_first_where_is(after, q, n + 1);
            }
        }
        assert forall|x: int| 0 <= x < after.len() implies r.entries.contains(
            #[trigger] after[x],
        ) by {
            if x < n {
                assert(after[x] == r.targets[x]);
            }
        }
        assert forall|x: int, y: int| 0 <= x < y < after.len() implies anchor_of(
            #[trigger] after[x],
        ) != anchor_of(#[trigger] after[y]) by {
            if y < n {
                assert(anchor_of(r.targets[x]) != anchor_of(r.targets[y]));
            } else {
                assert(!p(r.targets[x]));
            }
        }
    }
}

/// Installing keeps a registry well formed, and the key is installed afterwards.
pub proof fn lemma_installed(r: RegistryView, k: KeyView)
    requires
        well_formed(r),
    ensures
        well_formed(installed(r, k)),
        installed(r, k).entries.contains(k),
        forall|e: KeyView| r.entries.contains(e) ==> installed(r, k).entries.contains(e),
{
    let after = installed(r, k);
    let n = r.entries.len() as int;
    if !r.entries.contains(k) {
        assert(after.entries =~= r.entries.push(k));
        assert(after.entries[n] == k);
        assert forall|e: KeyView| r.entries.contains(e) implies after.entries.contains(e) by {
            let x = choose|x: int| 0 <= x < r.entries.len() && r.entries[x] == e;
            assert(after.entries[x] == e);
        }
        assert forall|i: int, j: int| 0 <= i < j < after.entries.len() implies
            #[trigger] after.entries[i] != #[trigger] after.entries[j] by {
            if j < n {
                assert(r.entries[i] != r.entries[j]);
            } else {
                assert(r.entries.contains(r.entries[i]));
            }
        }
    }
    let p = has_anchor(anchor_of(k));
    lemma_first_where(r.targets, p);
    let m = r.targets.len() as int;
    assert forall|x: int| 0 <= x < after.targets.len() implies after.entries.contains(
        #[trigger] after.targets[x],
    ) by {
        if x < m {
            assert(after.targets[x] == r.targets[x]);
            assert(r.entries.contains(r.targets[x]));
        }
    }
    assert forall|x: int, y: int| 0 <= x < y < after.targets.len() implies anchor_of(
        #[trigger] after.targets[x],
    ) != anchor_of(#[trigger] after.targets[y]) by {
        if y < m {
            assert(anchor_of(r.targets[x]) != anchor_of(r.targets[y]));
        } else {
            assert(!p(r.targets[x]));
        }
    }
}

/// Every step of an upgrade keeps a registry well formed and loses no entry.
pub proof fn lemma_upgraded(r: RegistryView, catalog: Seq<KeyView>, q: PythonDownloadRequest)
    requires
        well_formed(r),
    ensures
        well_formed(upgraded(r, catalog, q).0),
        forall|e: KeyView| r.entries.contains(e) ==> upgraded(r, catalog, q).0.entries.contains(e),
        match upgraded(r, catalog, q).1 {
            Some(k) => upgraded(r, catalog, q).0.entries.contains(k) && resolve(
                upgraded(r, catalog, q).0,
                anchor_of(k),
            ) == Some(k) && catalog.contains(k) && download_request_matches(q, k),
            None => upgraded(r, catalog, q).0 == r,
        },
{
    if has_download(catalog, q) {
        let w = choose|i: int| 0 <= i < catalog.len() && download_request_matches(q, catalog[i]);
        lemma_some_latest(catalog, q, w);
        let i = latest_index(catalog, q);
        let k = catalog[i];
        lemma_installed(r, k);
        lemma_transparent_upgrade(installed(r, k), k, anchor_of(k));
    }
}

/// If the catalog has an entry for a request, one of them serves it.
pub proof fn lemma_some_latest(catalog: Seq<KeyView>, q: PythonDownloadRequest, w: int)
    requires
        0 <= w < catalog.len(),
        download_request_matches(q, catalog[w]),
    ensures
        is_latest(catalog, q, latest_index(catalog, q)),
{
    let b = lemma_latest_among(catalog, q, catalog.len() as int, w);
    assert(is_latest(catalog, q, b));
}

proof fn lemma_latest_among(catalog: Seq<KeyView>, q: PythonDownloadRequest, n: int, w: int) -> (b:
    int)
    requires
        0 <= w < n <= catalog.len(),
        download_request_matches(q, catalog[w]),
    ensures
        0 <= b < n,
        download_request_matches(q, catalog[b]),
        forall|j: int|
            0 <= j < n && download_request_matches(q, #[trigger] catalog[j]) ==> !version_before(
                key_version(catalog[b]),
                key_version(catalog[j]),
            ) && (j < b ==> version_before(key_version(catalog[j]), key_version(catalog[b]))),
    decreases n,
{
    if n - 1 == w {
        if exists|x: int| 0 <= x < w && download_request_matches(q, catalog[x]) {
            let x = choose|x: int| 0 <= x < w && download_request_matches(q, catalog[x]);
            let b0 = lemma_latest_among(catalog, q, n - 1, x);
            if version_before(key_version(catalog[b0]), key_version(catalog[w])) {
                w
            } else {
                b0
            }
        } else {
            w
        }
    } else {
        let b0 = lemma_latest_among(catalog, q, n - 1, w);
        if download_request_matches(q, catalog[n - 1]) && version_before(
            key_version(catalog[b0]),
            key_version(catalog[n - 1]),
        ) {
            n - 1
        } else {
            b0
        }
    }
}

/// An upgrade keeps a registry well formed and loses no entry, and every key
/// that it reports is installed and comes from the catalog.
pub proof fn lemma_upgraded_all(
    r: RegistryView,
    catalog: Seq<KeyView>,
    requests: Seq<PythonDownloadRequest>,
)
    requires
        well_formed(r),
    ensures
        well_formed(upgraded_all(r, catalog, requests).0),
        forall|e: KeyView|
            r.entries.contains(e) ==> upgraded_all(r, catalog, requests).0.entries.contains(e),
        forall|i: int|
            0 <= i < upgraded_all(r, catalog, requests).1.len() ==> catalog.contains(
                #[trigger] upgraded_all(r, catalog, requests).1[i],
            ) && upgraded_all(r, catalog, requests).0.entries.contains(
                upgraded_all(r, catalog, requests).1[i],
            ),
    decreases requests.len(),
{
    if requests.len() > 0 {
        let before = upgraded_all(r, catalog, requests.drop_last());
        lemma_upgraded_all(r, catalog, requests.drop_last());
        lemma_upgraded(before.0, catalog, requests.last());
        let step = upgraded(before.0, catalog, requests.last());
        let after = upgraded_all(r, catalog, requests);
        assert forall|i: int| 0 <= i < after.1.len() implies catalog.contains(
            #[trigger] after.1[i],
        ) && after.0.entries.contains(after.1[i]) by {
            if i < before.1.len() {
                assert(after.1[i] == before.1[i]);
                assert(before.0.entries.contains(before.1[i]));
            }
        }
    }
}

impl VenvBinding {
    /// The binding of an environment that is created for the interpreter with
    /// this key. Only the anchor of the key is kept in mind: the patch is not.
    pub fn new(key: &PythonInstallationKey) -> (r: Self)
        ensures
            r.anchor() == anchor_of(key@),
    {
        VenvBinding { key: key.clone() }
    }

    /// The anchor that the environment is bound to.
    pub closed spec fn anchor(&self) -> AnchorView {
        anchor_of(self.key@)
    }
}

/// Whether two keys belong to the same anchor.
fn same_anchor(a: &PythonInstallationKey, b: &PythonInstallationKey) -> (r: bool)
    ensures
        r == (anchor_of(a@) == anchor_of(b@)),
{
    a.implementation().same(b.implementation()) && a.major() == b.major() && a.minor() == b.minor()
        && *a.variant() == *b.variant()
}

/// The place of the first key of `keys` that belongs to the anchor of `key`.
fn anchor_position(keys: &Vec<PythonInstallationKey>, key: &PythonInstallationKey) -> (r: usize)
    ensures
        r == first_where(key_views(keys@), has_anchor(anchor_of(key@))),
        r <= keys.len(),
{
    let ghost p = has_anchor(anchor_of(key@));
    let ghost views = key_views(keys@);
    let mut i: usize = 0;
    while i < keys.len()
        invariant
            i <= keys.len(),
            views == key_views(keys@),
            p == has_anchor(anchor_of(key@)),
            forall|x: int| 0 <= x < i ==> !p(#[trigger] views[x]),
        decreases keys.len() - i,
    {
        proof {
            assert(views[i as int] == keys@[i as int]@);
        }
        if same_anchor(&keys[i], key) {
            proof {
                lemma_first_where_is(views, p, i as int);
            }
            return i;
        }
        i += 1;
    }
    proof {
        lemma_first_where_is(views, p, i as int);
    }
    i
}

/// Whether `keys` holds `key`.
fn holds(keys: &Vec<PythonInstallationKey>, key: &PythonInstallationKey) -> (r: bool)
    ensures
        r == key_views(keys@).contains(key@),
{
    let ghost views = key_views(keys@);
    let mut i: usize = 0;
    while i < keys.len()
        invariant
            i <= keys.len(),
            views == key_views(keys@),
            forall|x: int| 0 <= x < i ==> views[x] != key@,
        decreases keys.len() - i,
    {
        proof {
            assert(views[i as int] == keys@[i as int]@);
        }
        if keys[i].same(key) {
            return true;
        }
        i += 1;
    }
    false
}

proof fn lemma_key_views_push(keys: Seq<PythonInstallationKey>, key: PythonInstallationKey)
    ensures
        key_views(keys.push(key)) == key_views(keys).push(key@),
{
    assert(key_views(keys.push(key)) =~= key_views(keys).push(key@));
}

impl Registry {
    /// Whether the registry is well formed.
    pub open spec fn wf(&self) -> bool {
        well_formed(self@)
    }

    /// The registry without any interpreter.
    pub fn new() -> (r: Self)
        ensures
            r.wf(),
            r@.entries.len() == 0,
            r@.targets.len() == 0,
    {
        Registry { entries: Vec::new(), anchors: Vec::new() }
    }

    /// The registry that a directory with these entries stands for: every name
    /// that is the written form of a key is installed, in order, and every other
    /// name is passed over.
    pub fn from_names(names: &Vec<String>) -> (r: Self)
        ensures
            r.wf(),
            r@ == scanned(line_texts(names@)),
    {
        let ghost texts = line_texts(names@);
        let mut registry = Registry::new();
        let mut i: usize = 0;
        proof {
            assert(texts.take(0) =~= Seq::<Seq<char>>::empty());
            assert(registry@.entries =~= Seq::<KeyView>::empty());
            assert(registry@.targets =~= Seq::<KeyView>::empty());
        }
        while i < names.len()
            invariant
                i <= names.len(),
                texts == line_texts(names@),
                registry.wf(),
                registry@ == scanned(texts.take(i as int)),
            decreases names.len() - i,
        {
            proof {
                let next = texts.take(i + 1);
                assert(next.drop_last() =~= texts.take(i as int));
                assert(next.last() == names@[i as int]@);
            }
            match PythonInstallationKey::from_str(names[i].as_str()) {
                Ok(key) => {
                    registry.install(key);
                },
                Err(_) => {},
            }
            i += 1;
        }
        proof {
            assert(texts.take(texts.len() as int) =~= texts);
        }
        registry
    }

    /// The number of installed keys.
    pub fn len(&self) -> (r: usize)
        ensures
            r == self@.entries.len(),
    {
        self.entries.len()
    }

    /// The installed key at place `i`.
    pub fn entry(&self, i: usize) -> (r: &PythonInstallationKey)
        requires
            i < self@.entries.len(),
        ensures
            r@ == self@.entries[i as int],
    {
        &self.entries[i]
    }

    /// Whether `key` is installed.
    pub fn contains(&self, key: &PythonInstallationKey) -> (r: bool)
        ensures
            r == self@.entries.contains(key@),
    {
        holds(&self.entries, key)
    }

    /// Installs `key`: it becomes an entry unless it is one already, and its
    /// minor version gets an anchor that leads to it unless it has one already.
    /// Tells whether the key is a new entry.
    pub fn install(&mut self, key: PythonInstallationKey) -> (r: bool)
        requires
            old(self).wf(),
        ensures
            final(self).wf(),
            final(self)@ == installed(old(self)@, key@),
            r == !old(self)@.entries.contains(key@),
    {
        proof {
            lemma_installed(self@, key@);
        }
        let known = holds(&self.entries, &key);
        let anchored = anchor_position(&self.anchors, &key) < self.anchors.len();
        let ghost entries = self.entries@;
        let ghost anchors = self.anchors@;
        if !anchored {
            self.anchors.push(key.clone());
            proof {
                assert(key_views(self.anchors@) =~= key_views(anchors).push(key@));
            }
        }
        if !known {
            self.entries.push(key);
            proof {
                lemma_key_views_push(entries, key);
            }
        }
        !known
    }

    /// Retargets the anchor of `key` to `key`, which must be installed.
    pub fn retarget(&mut self, key: &PythonInstallationKey)
        requires
            old(self).wf(),
            old(self)@.entries.contains(key@),
        ensures
            final(self).wf(),
            final(self)@ == retargeted(old(self)@, key@),
    {
        proof {
            lemma_transparent_upgrade(self@, key@, anchor_of(key@));
        }
        let at = anchor_position(&self.anchors, key);
        let ghost anchors = self.anchors@;
        if at < self.anchors.len() {
            self.anchors.set(at, key.clone());
            proof {
                assert(key_views(self.anchors@) =~= key_views(anchors).update(at as int, key@));
            }
        } else {
            self.anchors.push(key.clone());
            proof {
                assert(key_views(self.anchors@) =~= key_views(anchors).push(key@));
            }
        }
    }

    /// The key that the anchor of `key` leads to.
    pub fn resolve(&self, key: &PythonInstallationKey) -> (r: Option<&PythonInstallationKey>)
        ensures
            match r {
                Some(k) => resolve(self@, anchor_of(key@)) == Some(k@),
                None => resolve(self@, anchor_of(key@)) is None,
            },
    {
        let at = anchor_position(&self.anchors, key);
        if at < self.anchors.len() {
            Some(&self.anchors[at])
        } else {
            None
        }
    }

    /// The interpreter that an environment runs: the key that its anchor leads
    /// to.
    pub fn probe(&self, binding: &VenvBinding) -> (r: Option<&PythonInstallationKey>)
        ensures
            match r {
                Some(k) => resolve(self@, binding.anchor()) == Some(k@),
                None => resolve(self@, binding.anchor()) is None,
            },
    {
        self.resolve(&binding.key)
    }

    /// The installed key that serves a request: of the entries that the request
    /// takes, the one with the highest version.
    pub fn find(&self, request: &PythonDownloadRequest) -> (r: Option<&PythonInstallationKey>)
        ensures
            match r {
                Some(k) => exists|i: int|
                    is_latest(self@.entries, *request, i) && self@.entries[i] == k@,
                None => !has_download(self@.entries, *request),
            },
    {
        match plan_download(&self.entries, request) {
            Ok(i) => {
                proof {
                    assert(self@.entries[i as int] == self.entries@[i as int]@);
                    assert(is_latest(self@.entries, *request, i as int));
                }
                Some(&self.entries[i])
            },
            Err(_) => None,
        }
    }

    /// The interpreter that runs in a project: if a pin names a patch, the
    /// installed interpreter that the pin asks for, found without regard to the
    /// environment; else the interpreter of the environment.
    pub fn run(&self, binding: &VenvBinding, pin: Option<&PythonDownloadRequest>) -> (r: Option<
        &PythonInstallationKey,
    >)
        ensures
            match pin {
                Some(wanted) if pins_patch(*wanted) => match r {
                    Some(k) => exists|i: int|
                        is_latest(self@.entries, *wanted, i) && self@.entries[i] == k@,
                    None => !has_download(self@.entries, *wanted),
                },
                _ => match r {
                    Some(k) => resolve(self@, binding.anchor()) == Some(k@),
                    None => resolve(self@, binding.anchor()) is None,
                },
            },
    {
        match pin {
            Some(wanted) => {
                let exact = match wanted.version {
                    Some(v) => v.minor.is_some() && v.patch.is_some(),
                    None => false,
                };
                if exact {
                    self.find(wanted)
                } else {
                    self.probe(binding)
                }
            },
            None => self.probe(binding),
        }
    }

    /// Fetches what a request asks for: the entry of the catalog that serves
    /// the request is installed. Tells the key, and whether it is a new entry.
    pub fn fetch(&mut self, catalog: &Vec<PythonInstallationKey>, request: &PythonDownloadRequest)
        -> (r: Result<(PythonInstallationKey, bool), Error>)
        requires
            old(self).wf(),
        ensures
            final(self).wf(),
            match r {
                Ok((key, fresh)) => is_latest(
                    key_views(catalog@),
                    *request,
                    latest_index(key_views(catalog@), *request),
                ) && key@ == key_views(catalog@)[latest_index(key_views(catalog@), *request)]
                    && final(self)@ == installed(old(self)@, key@) && fresh == !old(
                    self,
                )@.entries.contains(key@),
                Err(e) => e == Error::NoDownloadFound && !has_download(
                    key_views(catalog@),
                    *request,
                ) && final(self)@ == old(self)@,
            },
    {
        match plan_download(catalog, request) {
            Ok(i) => {
                proof {
                    lemma_latest_is(key_views(catalog@), *request, i as int);
                }
                let key = catalog[i].clone();
                let fresh = self.install(key.clone());
                Ok((key, fresh))
            },
            Err(e) => Err(e),
        }
    }

    /// Takes one request of an upgrade.
    fn upgrade_one(&mut self, catalog: &Vec<PythonInstallationKey>, request: &PythonDownloadRequest)
        -> (r: Option<PythonInstallationKey>)
        requires
            old(self).wf(),
        ensures
            final(self).wf(),
            final(self)@ == upgraded(old(self)@, key_views(catalog@), *request).0,
            match (r, upgraded(old(self)@, key_views(catalog@), *request).1) {
                (Some(k), Some(expected)) => k@ == expected,
                (None, None) => true,
                _ => false,
            },
    {
        let ghost views = key_views(catalog@);
        proof {
            lemma_upgraded(self@, views, *request);
        }
        let i = match plan_download(catalog, request) {
            Ok(i) => i,
            Err(_) => {
                return None;
            },
        };
        proof {
            lemma_latest_is(views, *request, i as int);
            assert(views[i as int] == catalog@[i as int]@);
        }
        let key = &catalog[i];
        let current = match self.resolve(key) {
            Some(c) => !c.version().precedes(&key.version()),
            None => false,
        };
        if current {
            return None;
        }
        proof {
            lemma_installed(self@, key@);
        }
        self.install(key.clone());
        self.retarget(key);
        Some(key.clone())
    }

    /// The requests of an upgrade without targets.
    fn anchor_requests(&self) -> (r: Vec<PythonDownloadRequest>)
        ensures
            r@ == requests_of(self@.targets),
    {
        let ghost targets = key_views(self.anchors@);
        let mut requests: Vec<PythonDownloadRequest> = Vec::new();
        let mut i: usize = 0;
        proof {
            assert(targets.take(0) =~= Seq::<KeyView>::empty());
        }
        while i < self.anchors.len()
            invariant
                i <= self.anchors.len(),
                targets == key_views(self.anchors@),
                requests@ == requests_of(targets.take(i as int)),
            decreases self.anchors.len() - i,
        {
            let key = &self.anchors[i];
            proof {
                let next = targets.take(i + 1);
                assert(next.drop_last() =~= targets.take(i as int));
                assert(next.last() == key@);
            }
            match key.implementation() {
                LenientImplementationName::Known(name) => {
                    requests.push(
                        PythonDownloadRequest {
                            implementation: Some(*name),
                            version: Some(
                                VersionRequest {
                                    major: key.major(),
                                    minor: Some(key.minor()),
                                    patch: None,
                                },
                            ),
                            os: Some(*key.os()),
                            arch: Some(*key.arch()),
                            libc: Some(*key.libc()),
                            variant: Some(*key.variant()),
                        },
                    );
                },
                LenientImplementationName::Unknown(_) => {},
            }
            i += 1;
        }
        proof {
            assert(targets.take(targets.len() as int) =~= targets);
        }
        requests
    }

    /// Upgrades minor versions to the newest patch that the catalog knows. With
    /// targets, each target must name a minor version, and each is upgraded on
    /// the platform of the host; without targets, every minor version that has
    /// an anchor is upgraded. An upgrade installs the newest patch and retargets
    /// the anchor, and leaves the older patches installed.
    pub fn upgrade(
        &mut self,
        catalog: &Vec<PythonInstallationKey>,
        targets: &Vec<VersionRequest>,
        host: &Platform,
    ) -> (r: Result<UpgradeReport, UpgradeError>)
        requires
            old(self).wf(),
        ensures
            final(self).wf(),
            match r {
                Err(e) => e == UpgradeError::OnlyMinorVersions && (exists|i: int|
                    0 <= i < targets.len() && !minor_only(targets@[i])) && final(self)@ == old(
                    self,
                )@,
                Ok(report) => {
                    let requests = if targets.len() == 0 {
                        requests_of(old(self)@.targets)
                    } else {
                        requests_on(targets@, *host)
                    };
                    &&& forall|i: int| 0 <= i < targets.len() ==> minor_only(targets@[i])
                    &&& final(self)@ == upgraded_all(
                        old(self)@,
                        key_views(catalog@),
                        requests,
                    ).0
                    &&& key_views(report.installed@) == upgraded_all(
                        old(self)@,
                        key_views(catalog@),
                        requests,
                    ).1
                    &&& report.all_on_latest == (targets.len() == 0 && requests.len() > 0
                        && report.installed.len() == 0)
                },
            },
    {
        let ghost start = self@;
        let ghost views = key_views(catalog@);
        let mut requests: Vec<PythonDownloadRequest> = Vec::new();
        if targets.len() == 0 {
            requests = self.anchor_requests();
        } else {
            let mut i: usize = 0;
            while i < targets.len()
                invariant
                    i <= targets.len(),
                    requests@.len() == i,
                    self.wf(),
                    self@ == start,
                    forall|x: int| 0 <= x < i ==> minor_only(targets@[x]),
                    forall|x: int|
                        0 <= x < i ==> #[trigger] requests@[x] == request_on(targets@[x], *host),
                decreases targets.len() - i,
            {
                let v = targets[i];
                if !(v.minor.is_some() && v.patch.is_none()) {
                    return Err(UpgradeError::OnlyMinorVersions);
                }
                requests.push(
                    PythonDownloadRequest {
                        implementation: Some(ImplementationName::CPython),
                        version: Some(v),
                        os: Some(host.os),
                        arch: Some(host.arch),
                        libc: Some(host.libc),
                        variant: Some(PythonVariant::Default),
                    },
                );
                i += 1;
            }
            proof {
                assert(requests@ =~= requests_on(targets@, *host));
            }
        }
        let mut installed: Vec<PythonInstallationKey> = Vec::new();
        let mut i: usize = 0;
        proof {
            assert(requests@.take(0) =~= Seq::<PythonDownloadRequest>::empty());
            assert(key_views(installed@) =~= Seq::<KeyView>::empty());
        }
        while i < requests.len()
            invariant
                i <= requests.len(),
                views == key_views(catalog@),
                self.wf(),
                self@ == upgraded_all(start, views, requests@.take(i as int)).0,
                key_views(installed@) == upgraded_all(start, views, requests@.take(i as int)).1,
            decreases requests.len() - i,
        {
            proof {
                let next = requests@.take(i + 1);
                assert(next.drop_last() =~= requests@.take(i as int));
                assert(next.last() == requests@[i as int]);
            }
            let ghost before = installed@;
            match self.upgrade_one(catalog, &requests[i]) {
                Some(key) => {
                    installed.push(key);
                    proof {
                        lemma_key_views_push(before, key);
                    }
                },
                None => {},
            }
            i += 1;
        }
        proof {
            assert(requests@.take(requests@.len() as int) =~= requests@);
        }
        let all_on_latest = targets.len() == 0 && requests.len() > 0 && installed.len() == 0;
        Ok(UpgradeReport { installed, all_on_latest })
    }
}

/// Whether a pin names a patch.
pub open spec fn pins_patch(wanted: PythonDownloadRequest) -> bool {
    match wanted.version {
        Some(v) => v.minor is Some && v.patch is Some,
        None => false,
    }
}

/// What a person is told who asks for an environment of one patch: nothing,
/// unless the request names a patch.
pub open spec fn patch_warning_text(v: VersionRequest) -> Option<Seq<char>> {
    match (v.minor, v.patch) {
        (Some(minor), Some(patch)) => Some(
            "Virtual environments only record Python minor versions. You could use `uv python pin python"@
                + release_text(v.major, minor, patch) + "` to pin the full version"@,
        ),
        _ => None,
    }
}

/// The warning for a request that names a patch: an environment is bound to
/// the minor version, so the patch is not kept.
pub fn patch_warning(v: &VersionRequest) -> (r: Option<String>)
    ensures
        match (r, patch_warning_text(*v)) {
            (Some(text), Some(expected)) => text@ == expected,
            (None, None) => true,
            _ => false,
        },
{
    match (v.minor, v.patch) {
        (Some(minor), Some(patch)) => {
            let mut out = String::from_str(
                "Virtual environments only record Python minor versions. You could use `uv python pin python",
            );
            push_decimal(&mut out, v.major as u64);
            out.push('.');
            push_decimal(&mut out, minor as u64);
            out.push('.');
            push_decimal(&mut out, patch as u64);
            out.append("` to pin the full version");
            proof {
                assert(out@ =~= patch_warning_text(*v)->0);
            }
            Some(out)
        },
        _ => None,
    }
}

impl UpgradeError {
    /// The sentence that tells a person what went wrong.
    pub fn to_string(&self) -> (r: String)
        ensures
            r@ == "upgrade only accepts minor versions"@,
    {
        String::from_str("upgrade only accepts minor versions")
    }
}

/// The line of a report for one key.
fn change_line_of(key: &PythonInstallationKey, executable: Option<TargetFamily>) -> (r: String)
    ensures
        r@ == change_line(key@, executable),
{
    let mut out = String::from_str(" + ");
    out.append(key.to_string().as_str());
    match executable {
        Some(family) => {
            out.append(" (");
            out.append(key.executable_name_minor(family).as_str());
            out.append(")");
            proof {
                assert(out@ =~= change_line(key@, executable));
            }
        },
        None => {
            proof {
                assert(out@ =~= change_line(key@, executable));
            }
        },
    }
    out
}

/// The lines that report the keys that were installed: what was installed and
/// how long it took, then one line for each key. With `executable`, each line
/// also shows the name of the executable that carries the minor version.
pub fn installed_lines(
    keys: &Vec<PythonInstallationKey>,
    elapsed: &str,
    executable: Option<TargetFamily>,
) -> (lines: Vec<String>)
    ensures
        line_texts(lines@) == report_lines(key_views(keys@), elapsed@, executable),
{
    let ghost views = key_views(keys@);
    let mut lines: Vec<String> = Vec::new();
    if keys.len() == 0 {
        proof {
            assert(line_texts(lines@) =~= report_lines(views, elapsed@, executable));
        }
        return lines;
    }
    let mut summary = String::new();
    if keys.len() == 1 {
        let key = &keys[0];
        proof {
            assert(views[0] == key@);
        }
        summary.append("Installed Python ");
        push_full_version(&mut summary, key.major(), key.minor(), key.patch(), key.prerelease());
        summary.append(" in ");
        summary.append(elapsed);
        proof {
            assert(summary@ =~= summary_line(views, elapsed@));
        }
    } else {
        summary.append("Installed ");
        push_decimal(&mut summary, keys.len() as u64);
        summary.append(" versions in ");
        summary.append(elapsed);
        proof {
            assert(summary@ =~= summary_line(views, elapsed@));
        }
    }
    lines.push(summary);
    let mut i: usize = 0;
    while i < keys.len()
        invariant
            i <= keys.len(),
            views == key_views(keys@),
            lines@.len() == i + 1,
            lines@[0]@ == summary_line(views, elapsed@),
            forall|x: int| 0 <= x < i ==> (#[trigger] lines@[x + 1])@ == change_line(
                views[x],
                executable,
            ),
        decreases keys.len() - i,
    {
        proof {
            assert(views[i as int] == keys@[i as int]@);
        }
        lines.push(change_line_of(&keys[i], executable));
        i += 1;
    }
    proof {
        let expected = report_lines(views, elapsed@, executable);
        assert(expected.len() == keys.len() + 1);
        assert forall|x: int| 0 <= x < expected.len() implies line_texts(lines@)[x]
            == expected[x] by {
            if x > 0 {
                assert(lines@[(x - 1) + 1]@ == change_line(views[x - 1], executable));
            }
        }
        assert(line_texts(lines@) =~= expected);
    }
    lines
}

impl UpgradeReport {
    /// The lines that report an upgrade: those of the keys that were installed,
    /// or the remark that everything is on its latest patch, or nothing.
    pub fn lines(&self, elapsed: &str) -> (lines: Vec<String>)
        ensures
            line_texts(lines@) == (if self.installed@.len() > 0 {
                report_lines(key_views(self.installed@), elapsed@, None)
            } else if self.all_on_latest {
                seq!["All requested versions already on latest patch"@]
            } else {
                Seq::<Seq<char>>::empty()
            }),
    {
        if self.installed.len() > 0 {
            installed_lines(&self.installed, elapsed, None)
        } else if self.all_on_latest {
            let mut lines: Vec<String> = Vec::new();
            lines.push(String::from_str("All requested versions already on latest patch"));
            proof {
                assert(line_texts(lines@) =~= seq![
                    "All requested versions already on latest patch"@,
                ]);
            }
            lines
        } else {
            let lines: Vec<String> = Vec::new();
            proof {
                assert(line_texts(lines@) =~= Seq::<Seq<char>>::empty());
            }
            lines
        }
    }
}

/// The exit code of a command: 0 if it succeeded, 1 if it failed in a way that
/// the user is told of, 2 if it was not used as it is meant to be.
pub fn exit_code(failed: bool, usage: bool) -> (code: u8)
    ensures
        code == (if usage {
            2u8
        } else if failed {
            1u8
        } else {
            0u8
        }),
{
    if usage {
        2
    } else if failed {
        1
    } else {
        0
    }
}

} // verus!
