//! ALPN / subprotocol negotiation shared by the TLS and WebSocket transports.
//!
//! A name on the wire is either a bare version (`qmux-01`) or a version, a dot and
//! an application protocol (`qmux-01.moq-lite-04`).

use vstd::prelude::*;
use vstd::string::StringExecFns;

use super::negotiate::list_contains;
use super::proto::params::texts;
use super::proto::version::Version;
use crate::text::{equal, strip_prefix};

verus! {

/// The name of application protocol `alpn` under version `v`.
pub open spec fn wire_name(v: Version, alpn: Seq<char>) -> Seq<char> {
    v.dotted() + alpn
}

/// The versions that an entry stands for: those it lists, or every QMux draft.
pub open spec fn expanded(versions: Seq<Version>) -> Seq<Version> {
    if versions.len() == 0 {
        seq![Version::QMux01, Version::QMux00]
    } else {
        versions
    }
}

/// The versions whose bare names are offered and accepted, in order.
pub open spec fn bare() -> Seq<Version> {
    seq![Version::QMux01, Version::QMux00, Version::WebTransport]
}

/// An application protocol and the versions it can ride on.
pub struct EntryView {
    pub alpn: Seq<char>,
    pub versions: Seq<Version>,
}

/// Entries over plain values.
pub open spec fn entries_view(entries: Seq<(String, Vec<Version>)>) -> Seq<EntryView> {
    Seq::new(
        entries.len(),
        |i: int| EntryView { alpn: entries[i].0@, versions: entries[i].1@ },
    )
}

/// The names of one entry, in order.
pub open spec fn entry_names(e: EntryView) -> Seq<Seq<char>> {
    expanded(e.versions).map_values(|v: Version| wire_name(v, e.alpn))
}

/// The names of entries, in order.
pub open spec fn entries_names(entries: Seq<EntryView>) -> Seq<Seq<char>>
    decreases entries.len(),
{
    if entries.len() == 0 {
        Seq::empty()
    } else {
        entries_names(entries.drop_last()) + entry_names(entries.last())
    }
}

/// The names that a client offers, in order of preference: those of its entries,
/// and unless it insists on one of them, the bare versions.
pub open spec fn offered(entries: Seq<EntryView>, require_protocol: bool) -> Seq<Seq<char>> {
    if require_protocol {
        entries_names(entries)
    } else {
        entries_names(entries) + bare().map_values(|v: Version| v.name())
    }
}

/// The version and application protocol that a name stands for. What is not known
/// stands for the legacy format without one.
pub open spec fn parsed(name: Option<Seq<char>>) -> (Version, Option<Seq<char>>) {
    match name {
        None => (Version::WebTransport, None),
        Some(s) => if s == Version::QMux01.name() {
            (Version::QMux01, None)
        } else if Version::QMux01.dotted().is_prefix_of(s) {
            (Version::QMux01, Some(s.skip(Version::QMux01.dotted().len() as int)))
        } else if s == Version::QMux00.name() {
            (Version::QMux00, None)
        } else if Version::QMux00.dotted().is_prefix_of(s) {
            (Version::QMux00, Some(s.skip(Version::QMux00.dotted().len() as int)))
        } else if Version::WebTransport.dotted().is_prefix_of(s) {
            (Version::WebTransport, Some(s.skip(Version::WebTransport.dotted().len() as int)))
        } else {
            (Version::WebTransport, None)
        },
    }
}

/// The first of `versions` under which `alpn` was offered.
pub open spec fn first_version(
    names: Seq<Seq<char>>,
    alpn: Seq<char>,
    versions: Seq<Version>,
) -> Option<Version>
    decreases versions.len(),
{
    if versions.len() == 0 {
        None
    } else if names.contains(wire_name(versions[0], alpn)) {
        Some(versions[0])
    } else {
        first_version(names, alpn, versions.drop_first())
    }
}

/// The first entry that was offered, with the version.
pub open spec fn first_entry(names: Seq<Seq<char>>, entries: Seq<EntryView>) -> Option<
    (Version, Seq<char>),
>
    decreases entries.len(),
{
    if entries.len() == 0 {
        None
    } else {
        match first_version(names, entries[0].alpn, expanded(entries[0].versions)) {
            Some(v) => Some((v, entries[0].alpn)),
            None => first_entry(names, entries.drop_first()),
        }
    }
}

/// The first of `versions` whose bare name was offered.
pub open spec fn first_bare(names: Seq<Seq<char>>, versions: Seq<Version>) -> Option<Version>
    decreases versions.len(),
{
    if versions.len() == 0 {
        None
    } else if names.contains(versions[0].name()) {
        Some(versions[0])
    } else {
        first_bare(names, versions.drop_first())
    }
}

/// What a server picks of the names that a client offers: the first of its own
/// entries that is among them, and unless it insists on one, a bare version.
pub open spec fn selected(
    names: Seq<Seq<char>>,
    entries: Seq<EntryView>,
    require_protocol: bool,
) -> Option<(Version, Option<Seq<char>>)> {
    match first_entry(names, entries) {
        Some((v, alpn)) => Some((v, Some(alpn))),
        None => if require_protocol {
            None
        } else {
            match first_bare(names, bare()) {
                Some(v) => Some((v, None)),
                None => None,
            }
        },
    }
}

/// The name of what was picked.
pub open spec fn selected_name(picked: (Version, Option<Seq<char>>)) -> Seq<char> {
    match picked.1 {
        Some(alpn) => wire_name(picked.0, alpn),
        None => picked.0.name(),
    }
}

/// Law: a bare version reads back as itself.
pub proof fn lemma_parse_bare(v: Version)
    ensures
        parsed(Some(v.name())) == (v, None::<Seq<char>>),
{
    reveal_strlit("webtransport");
    reveal_strlit("qmux-00");
    reveal_strlit("qmux-01");
    let s = v.name();
    assert(Version::QMux01.name()[6] == '1');
    assert(Version::QMux00.name()[6] == '0');
    assert(Version::WebTransport.name()[0] == 'w');
    assert(Version::QMux01.name()[0] == 'q');
    assert(Version::QMux00.name()[0] == 'q');
    let legacy = Version::WebTransport.name();
    assert(legacy.subrange(0, 8)[0] == 'w');
    assert(Version::QMux01.dotted()[0] == 'q');
    assert(Version::QMux00.dotted()[0] == 'q');
}

/// Law: a version with an application protocol reads back as both.
pub proof fn lemma_parse_wire_name(v: Version, alpn: Seq<char>)
    ensures
        parsed(Some(wire_name(v, alpn))) == (v, Some(alpn)),
{
    reveal_strlit("webtransport");
    reveal_strlit("qmux-00");
    reveal_strlit("qmux-01");
    let s = wire_name(v, alpn);
    assert(s.skip(v.dotted().len() as int) =~= alpn);
    assert(v.dotted().is_prefix_of(s)) by {
        assert(s.take(v.dotted().len() as int) =~= v.dotted());
    }
    assert forall|i: int| 0 <= i < v.dotted().len() implies #[trigger] s[i] == v.dotted()[i] by {}
    assert(Version::QMux01.dotted()[6] == '1');
    assert(Version::QMux00.dotted()[6] == '0');
    assert(Version::WebTransport.dotted()[0] == 'w');
    assert(Version::QMux01.dotted()[0] == 'q');
    assert(Version::QMux00.dotted()[0] == 'q');
}

/// Law: the name of what a server picks tells the client the same version and
/// application protocol.
pub proof fn lemma_both_ends_agree(
    names: Seq<Seq<char>>,
    entries: Seq<EntryView>,
    require_protocol: bool,
)
    ensures
        selected(names, entries, require_protocol) matches Some(picked) ==> parsed(
            Some(selected_name(picked)),
        ) == picked,
{
    if let Some((v, alpn)) = selected(names, entries, require_protocol) {
        match alpn {
            Some(alpn) => lemma_parse_wire_name(v, alpn),
            None => lemma_parse_bare(v),
        }
    }
}

/// Law: a server picks only what was offered to it, and with a protocol required
/// never a bare version.
pub proof fn lemma_selected_was_offered(
    names: Seq<Seq<char>>,
    entries: Seq<EntryView>,
    require_protocol: bool,
)
    ensures
        selected(names, entries, require_protocol) matches Some(picked) ==> names.contains(
            selected_name(picked),
        ) && (require_protocol ==> picked.1 is Some),
{
    lemma_entry_offered(names, entries);
    lemma_bare_offered(names, bare());
}

proof fn lemma_entry_offered(names: Seq<Seq<char>>, entries: Seq<EntryView>)
    ensures
        first_entry(names, entries) matches Some((v, alpn)) ==> names.contains(wire_name(v, alpn)),
    decreases entries.len(),
{
    if entries.len() > 0 {
        lemma_version_offered(names, entries[0].alpn, expanded(entries[0].versions));
        lemma_entry_offered(names, entries.drop_first());
    }
}

proof fn lemma_version_offered(names: Seq<Seq<char>>, alpn: Seq<char>, versions: Seq<Version>)
    ensures
        first_version(names, alpn, versions) matches Some(v) ==> names.contains(
            wire_name(v, alpn),
        ),
    decreases versions.len(),
{
    if versions.len() > 0 {
        lemma_version_offered(names, alpn, versions.drop_first());
    }
}

proof fn lemma_bare_offered(names: Seq<Seq<char>>, versions: Seq<Version>)
    ensures
        first_bare(names, versions) matches Some(v) ==> names.contains(v.name()),
    decreases versions.len(),
{
    if versions.len() > 0 {
        lemma_bare_offered(names, versions.drop_first());
    }
}

/// Law: a server picks something wherever one of its entries was offered, and then
/// with an application protocol.
pub proof fn lemma_overlap_is_selected(
    names: Seq<Seq<char>>,
    entries: Seq<EntryView>,
    require_protocol: bool,
    i: int,
    k: int,
)
    requires
        0 <= i < entries.len(),
        0 <= k < expanded(entries[i].versions).len(),
        names.contains(wire_name(expanded(entries[i].versions)[k], entries[i].alpn)),
    ensures
        selected(names, entries, require_protocol) matches Some((_, Some(_))),
    decreases entries.len(),
{
    if i == 0 {
        lemma_some_version(names, entries[0].alpn, expanded(entries[0].versions), k);
    } else {
        let tail = entries.drop_first();
        assert(tail[i - 1] == entries[i]);
        lemma_overlap_is_selected(names, tail, require_protocol, i - 1, k);
    }
}

proof fn lemma_some_version(
    names: Seq<Seq<char>>,
    alpn: Seq<char>,
    versions: Seq<Version>,
    k: int,
)
    requires
        0 <= k < versions.len(),
        names.contains(wire_name(versions[k], alpn)),
    ensures
        first_version(names, alpn, versions) is Some,
    decreases versions.len(),
{
    if k > 0 {
        assert(versions.drop_first()[k - 1] == versions[k]);
        lemma_some_version(names, alpn, versions.drop_first(), k - 1);
    }
}

/// All supported ALPN identifiers, in preference order.
///
/// Use this when configuring TLS to advertise QMux support. For version-specific
/// ALPNs, use [`Version::alpn`].
pub fn alpns() -> (r: [&'static str; 3])
    ensures
        r@.len() == 3,
        r@[0]@ == Version::QMux01.name(),
        r@[1]@ == Version::QMux00.name(),
        r@[2]@ == Version::WebTransport.name(),
{
    ["qmux-01", "qmux-00", "webtransport"]
}

/// The name of `alpn` under a version.
fn wire(version: Version, alpn: &str) -> (r: String)
    ensures
        r@ == wire_name(version, alpn@),
{
    version.prefix().to_string().concat(alpn)
}

/// The versions that an entry stands for.
pub fn expand_versions(versions: &[Version]) -> (r: Vec<Version>)
    ensures
        r@ == expanded(versions@),
{
    let mut out: Vec<Version> = Vec::new();
    if versions.len() == 0 {
        out.push(Version::QMux01);
        out.push(Version::QMux00);
        assert(out@ =~= expanded(versions@));
        return out;
    }
    let mut i: usize = 0;
    while i < versions.len()
        invariant
            i <= versions@.len(),
            out@ == versions@.take(i as int),
        decreases versions@.len() - i,
    {
        assert(versions@.take(i + 1) =~= versions@.take(i as int).push(versions@[i as int]));
        out.push(versions[i]);
        i += 1;
    }
    assert(versions@.take(i as int) =~= versions@);
    out
}

/// Build the ALPN list for a single QMux version and its application protocols.
///
/// Emits the bare version ALPN followed by `{prefix}{proto}` for each app protocol.
///
/// Returns strings suitable for TLS ALPN or WebSocket `Sec-WebSocket-Protocol`.
pub fn build(version: Version, app_protocols: &[String]) -> (r: Vec<String>)
    ensures
        texts(r@) == seq![version.name()] + texts(app_protocols@).map_values(
            |alpn: Seq<char>| wire_name(version, alpn),
        ),
{
    let ghost names = texts(app_protocols@).map_values(
        |alpn: Seq<char>| wire_name(version, alpn),
    );
    let mut alpns: Vec<String> = Vec::new();
    alpns.push(version.alpn().to_string());
    let mut i: usize = 0;
    while i < app_protocols.len()
        invariant
            i <= app_protocols@.len(),
            names == texts(app_protocols@).map_values(
                |alpn: Seq<char>| wire_name(version, alpn),
            ),
            alpns@.len() == i + 1,
            alpns@[0]@ == version.name(),
            forall|j: int| 0 <= j < i ==> (#[trigger] alpns@[j + 1])@ == names[j],
        decreases app_protocols@.len() - i,
    {
        let ghost before = alpns@;
        alpns.push(wire(version, app_protocols[i].as_str()));
        assert forall|j: int| 0 <= j < i + 1 implies (#[trigger] alpns@[j + 1])@ == names[j] by {
            if j < i {
                assert(alpns@[j + 1] == before[j + 1]);
            }
        }
        i += 1;
    }
    proof {
        let all = seq![version.name()] + names;
        assert forall|j: int| 0 <= j < all.len() implies texts(alpns@)[j] == all[j] by {
            if j > 0 {
                assert(alpns@[(j - 1) + 1]@ == names[j - 1]);
            }
        }
        assert(texts(alpns@) =~= all);
    }
    alpns
}

/// The names to offer for `(alpn, versions)` entries, in preference order. The
/// bare version ALPNs are offered as well unless `require_protocol` is set.
pub fn build_entries(entries: &[(String, Vec<Version>)], require_protocol: bool) -> (r: Vec<
    String,
>)
    ensures
        texts(r@) == offered(entries_view(entries@), require_protocol),
{
    let ghost views = entries_view(entries@);
    let mut out: Vec<String> = Vec::new();
    let mut i: usize = 0;
    assert(texts(out@) =~= entries_names(views.take(0)));
    while i < entries.len()
        invariant
            i <= entries@.len(),
            views == entries_view(entries@),
            texts(out@) == entries_names(views.take(i as int)),
        decreases entries@.len() - i,
    {
        let versions = expand_versions(entries[i].1.as_slice());
        let ghost had = texts(out@);
        let ghost names = entry_names(views[i as int]);
        proof {
            assert(views.take(i + 1).drop_last() =~= views.take(i as int));
            assert(views.take(i + 1).last() == views[i as int]);
            assert(had + names.take(0) =~= had);
        }
        let mut k: usize = 0;
        while k < versions.len()
            invariant
                k <= versions@.len(),
                i < entries@.len(),
                views == entries_view(entries@),
                versions@ == expanded(views[i as int].versions),
                names == entry_names(views[i as int]),
                texts(out@) == had + names.take(k as int),
            decreases versions@.len() - k,
        {
            let ghost prev = texts(out@);
            out.push(wire(versions[k], entries[i].0.as_str()));
            proof {
                assert(texts(out@) =~= prev.push(names[k as int]));
                assert(names.take(k + 1) =~= names.take(k as int).push(names[k as int]));
                assert(prev.push(names[k as int]) =~= had + names.take(k + 1));
            }
            k += 1;
        }
        assert(names.take(k as int) =~= names);
        i += 1;
    }
    assert(views.take(i as int) =~= views);
    if !require_protocol {
        let ghost had = texts(out@);
        out.push(Version::QMux01.alpn().to_string());
        out.push(Version::QMux00.alpn().to_string());
        out.push(Version::WebTransport.alpn().to_string());
        assert(texts(out@) =~= had + bare().map_values(|v: Version| v.name()));
    }
    out
}

/// The version and application protocol that a negotiated name stands for.
pub fn parse(alpn: Option<&str>) -> (r: (Version, Option<String>))
    ensures
        ({
            let (v, p) = parsed(
                match alpn {
                    Some(s) => Some(s@),
                    None => None,
                },
            );
            &&& r.0 == v
            &&& match p {
                Some(name) => r.1 matches Some(x) && x@ == name,
                None => r.1 is None,
            }
        }),
{
    let s = match alpn {
        Some(s) => s,
        None => return (Version::WebTransport, None),
    };
    if equal(s, Version::QMux01.alpn()) {
        return (Version::QMux01, None);
    }
    if let Some(rest) = strip_prefix(s, Version::QMux01.prefix()) {
        return (Version::QMux01, Some(rest.to_string()));
    }
    if equal(s, Version::QMux00.alpn()) {
        return (Version::QMux00, None);
    }
    if let Some(rest) = strip_prefix(s, Version::QMux00.prefix()) {
        return (Version::QMux00, Some(rest.to_string()));
    }
    if let Some(rest) = strip_prefix(s, Version::WebTransport.prefix()) {
        return (Version::WebTransport, Some(rest.to_string()));
    }
    (Version::WebTransport, None)
}

/// What a server picked of the names that a client offers.
pub struct Selected {
    /// The wire-format version.
    pub version: Version,
    /// The application protocol, if any.
    pub protocol: Option<String>,
    /// The name that stands for both.
    pub name: String,
}

/// The first of `versions` under which `alpn` was offered, with its name.
fn pick_version(names: &Vec<String>, alpn: &str, versions: &Vec<Version>) -> (r: Option<
    (Version, String),
>)
    ensures
        match first_version(texts(names@), alpn@, versions@) {
            Some(v) => r matches Some((x, name)) && x == v && name@ == wire_name(v, alpn@),
            None => r is None,
        },
{
    let ghost all = texts(names@);
    let mut i: usize = 0;
    assert(versions@.skip(0) =~= versions@);
    while i < versions.len()
        invariant
            i <= versions@.len(),
            all == texts(names@),
            first_version(all, alpn@, versions@) == first_version(
                all,
                alpn@,
                versions@.skip(i as int),
            ),
        decreases versions@.len() - i,
    {
        assert(versions@.skip(i as int)[0] == versions@[i as int]);
        assert(versions@.skip(i as int).drop_first() =~= versions@.skip(i + 1));
        let name = wire(versions[i], alpn);
        if list_contains(names.as_slice(), &name) {
            return Some((versions[i], name));
        }
        i += 1;
    }
    None
}

/// Pick one of the names that a client offers.
///
/// Iterates supported entries in preference order; for each, expands the listed
/// versions (empty = every supported QMux draft) and picks the first
/// `{prefix}{alpn}` permutation the client offered. Falls back to the bare version
/// ALPNs for clients that didn't request an app protocol, unless
/// `require_protocol` is set.
pub fn select(
    names: &Vec<String>,
    entries: &[(String, Vec<Version>)],
    require_protocol: bool,
) -> (r: Option<Selected>)
    ensures
        match selected(texts(names@), entries_view(entries@), require_protocol) {
            Some(picked) => {
                &&& r matches Some(x)
                &&& x.version == picked.0
                &&& match picked.1 {
                    Some(alpn) => x.protocol matches Some(p) && p@ == alpn,
                    None => x.protocol is None,
                }
                &&& x.name@ == selected_name(picked)
            },
            None => r is None,
        },
{
    let ghost all = texts(names@);
    let ghost views = entries_view(entries@);
    let mut i: usize = 0;
    assert(views.skip(0) =~= views);
    while i < entries.len()
        invariant
            i <= entries@.len(),
            all == texts(names@),
            views == entries_view(entries@),
            first_entry(all, views) == first_entry(all, views.skip(i as int)),
        decreases entries@.len() - i,
    {
        assert(views.skip(i as int)[0] == views[i as int]);
        assert(views.skip(i as int).drop_first() =~= views.skip(i + 1));
        let versions = expand_versions(entries[i].1.as_slice());
        if let Some((version, name)) = pick_version(names, entries[i].0.as_str(), &versions) {
            return Some(Selected { version, protocol: Some(entries[i].0.clone()), name });
        }
        i += 1;
    }
    if require_protocol {
        return None;
    }
    let order = Version::all();
    let mut k: usize = 0;
    assert(bare().skip(0) =~= bare());
    while k < 3
        invariant
            k <= 3,
            order@ == bare(),
            all == texts(names@),
            !require_protocol,
            views == entries_view(entries@),
            first_entry(all, views) is None,
            first_bare(all, bare()) == first_bare(all, bare().skip(k as int)),
        decreases 3 - k,
    {
        assert(bare().skip(k as int)[0] == bare()[k as int]);
        assert(bare().skip(k as int).drop_first() =~= bare().skip(k + 1));
        let name = order[k].alpn().to_string();
        if list_contains(names.as_slice(), &name) {
            return Some(Selected { version: order[k], protocol: None, name });
        }
        k += 1;
    }
    None
}

/// Law: the names of the versions.
pub proof fn lemma_version_names()
    ensures
        Version::QMux01.name() == "qmux-01"@,
        Version::QMux00.name() == "qmux-00"@,
        Version::WebTransport.name() == "webtransport"@,
        Version::QMux01.dotted() == "qmux-01."@,
        Version::QMux00.dotted() == "qmux-00."@,
        Version::WebTransport.dotted() == "webtransport."@,
        Version::QMux01.qmux(),
        Version::QMux00.qmux(),
        !Version::WebTransport.qmux(),
{
    reveal_strlit("webtransport");
    reveal_strlit("webtransport.");
    reveal_strlit("qmux-00");
    reveal_strlit("qmux-00.");
    reveal_strlit("qmux-01");
    reveal_strlit("qmux-01.");
    assert("webtransport."@ =~= "webtransport"@.push('.'));
    assert("qmux-00."@ =~= "qmux-00"@.push('.'));
    assert("qmux-01."@ =~= "qmux-01"@.push('.'));
}

/// Law: a name is read as what it says and as nothing else. What stands for a version,
/// alone or with an application protocol, is written so; anything else, and no name at
/// all, is the legacy format.
pub proof fn lemma_parse_exact(s: Seq<char>)
    ensures
        parsed(None) == (Version::WebTransport, None::<Seq<char>>),
        match parsed(Some(s)) {
            (Version::QMux01, Some(alpn)) => s == "qmux-01."@ + alpn,
            (Version::QMux00, Some(alpn)) => s == "qmux-00."@ + alpn,
            (Version::WebTransport, Some(alpn)) => s == "webtransport."@ + alpn,
            (Version::QMux01, None) => s == "qmux-01"@,
            (Version::QMux00, None) => s == "qmux-00"@,
            (Version::WebTransport, None) => s != "qmux-01"@ && s != "qmux-00"@
                && !"qmux-01."@.is_prefix_of(s) && !"qmux-00."@.is_prefix_of(s)
                && !"webtransport."@.is_prefix_of(s),
        },
{
    lemma_version_names();
    match parsed(Some(s)) {
        (v, Some(alpn)) => {
            assert(s =~= v.dotted() + alpn);
        },
        _ => {},
    }
}

proof fn lemma_first_version_at(
    names: Seq<Seq<char>>,
    alpn: Seq<char>,
    versions: Seq<Version>,
    k: int,
)
    requires
        0 <= k <= versions.len(),
        forall|j: int|
            0 <= j < k ==> !names.contains(wire_name(#[trigger] versions[j], alpn)),
        k < versions.len() ==> names.contains(wire_name(versions[k], alpn)),
    ensures
        first_version(names, alpn, versions) == if k < versions.len() {
            Some(versions[k])
        } else {
            None
        },
    decreases versions.len(),
{
    if k > 0 {
        let tail = versions.drop_first();
        assert(!names.contains(wire_name(versions[0], alpn)));
        assert forall|j: int| 0 <= j < k - 1 implies !names.contains(
            wire_name(#[trigger] tail[j], alpn),
        ) by {
            assert(tail[j] == versions[j + 1]);
        }
        lemma_first_version_at(names, alpn, tail, k - 1);
    }
}

/// Whether none of the names of an entry is among `names`.
pub open spec fn not_offered(names: Seq<Seq<char>>, e: EntryView) -> bool {
    &&& forall|j: int|
        0 <= j < e.versions.len() ==> !names.contains(
            (#[trigger] e.versions[j]).dotted() + e.alpn,
        )
    &&& e.versions.len() == 0 ==> !names.contains("qmux-01."@ + e.alpn) && !names.contains(
        "qmux-00."@ + e.alpn,
    )
}

proof fn lemma_entry_passed_over(names: Seq<Seq<char>>, e: EntryView)
    requires
        not_offered(names, e),
    ensures
        first_version(names, e.alpn, expanded(e.versions)) is None,
{
    lemma_version_names();
    let versions = expanded(e.versions);
    assert forall|j: int| 0 <= j < versions.len() implies !names.contains(
        wire_name(#[trigger] versions[j], e.alpn),
    ) by {
        if e.versions.len() > 0 {
            assert(versions[j] == e.versions[j]);
        }
    }
    lemma_first_version_at(names, e.alpn, versions, versions.len() as int);
}

proof fn lemma_first_entry_at(names: Seq<Seq<char>>, entries: Seq<EntryView>, i: int, v: Version)
    requires
        0 <= i <= entries.len(),
        forall|j: int| 0 <= j < i ==> not_offered(names, #[trigger] entries[j]),
        i < entries.len() ==> first_version(
            names,
            entries[i].alpn,
            expanded(entries[i].versions),
        ) == Some(v),
    ensures
        first_entry(names, entries) == if i < entries.len() {
            Some((v, entries[i].alpn))
        } else {
            None
        },
    decreases entries.len(),
{
    if i > 0 {
        lemma_entry_passed_over(names, entries[0]);
        let tail = entries.drop_first();
        assert forall|j: int| 0 <= j < i - 1 implies not_offered(names, #[trigger] tail[j]) by {
            assert(tail[j] == entries[j + 1]);
        }
        if i < entries.len() {
            assert(tail[i - 1] == entries[i]);
        }
        lemma_first_entry_at(names, tail, i - 1, v);
    }
}

/// Law: the server's order decides. Its first entry that the client offers wins, and
/// within the entry the first version that the client offers it under. An entry without
/// versions stands for draft-01 and then draft-00.
pub proof fn lemma_server_order_decides(
    names: Seq<Seq<char>>,
    entries: Seq<EntryView>,
    require_protocol: bool,
    i: int,
    k: int,
)
    requires
        0 <= i < entries.len(),
        forall|j: int| 0 <= j < i ==> not_offered(names, #[trigger] entries[j]),
    ensures
        ({
            let alpn = entries[i].alpn;
            let versions = entries[i].versions;
            let picked = selected(names, entries, require_protocol);
            let new = names.contains("qmux-01."@ + alpn);
            let old_draft = names.contains("qmux-00."@ + alpn);
            &&& 0 <= k < versions.len() && names.contains(versions[k].dotted() + alpn) && (forall|
                j: int,
            |
                0 <= j < k ==> !names.contains((#[trigger] versions[j]).dotted() + alpn))
                ==> picked == Some((versions[k], Some(alpn)))
            &&& versions.len() == 0 && new ==> picked == Some((Version::QMux01, Some(alpn)))
            &&& versions.len() == 0 && !new && old_draft ==> picked == Some(
                (Version::QMux00, Some(alpn)),
            )
        }),
{
    lemma_version_names();
    let alpn = entries[i].alpn;
    let versions = entries[i].versions;
    if versions.len() == 0 {
        let both = expanded(versions);
        if names.contains("qmux-01."@ + alpn) {
            lemma_first_version_at(names, alpn, both, 0);
            lemma_first_entry_at(names, entries, i, Version::QMux01);
        } else if names.contains("qmux-00."@ + alpn) {
            lemma_first_version_at(names, alpn, both, 1);
            lemma_first_entry_at(names, entries, i, Version::QMux00);
        }
    } else if 0 <= k < versions.len() && names.contains(versions[k].dotted() + alpn) && (forall|
        j: int,
    |
        0 <= j < k ==> !names.contains((#[trigger] versions[j]).dotted() + alpn)) {
        lemma_first_version_at(names, alpn, versions, k);
        lemma_first_entry_at(names, entries, i, versions[k]);
    }
}

/// Law: where no entry of the server is offered, it picks the newest bare version that
/// is, and nothing at all where it insists on a protocol.
pub proof fn lemma_bare_fallback(
    names: Seq<Seq<char>>,
    entries: Seq<EntryView>,
    require_protocol: bool,
)
    requires
        forall|j: int| 0 <= j < entries.len() ==> not_offered(names, #[trigger] entries[j]),
    ensures
        selected(names, entries, require_protocol) == if require_protocol {
            None
        } else if names.contains("qmux-01"@) {
            Some((Version::QMux01, None::<Seq<char>>))
        } else if names.contains("qmux-00"@) {
            Some((Version::QMux00, None::<Seq<char>>))
        } else if names.contains("webtransport"@) {
            Some((Version::WebTransport, None::<Seq<char>>))
        } else {
            None
        },
{
    lemma_first_entry_at(names, entries, entries.len() as int, Version::QMux01);
    let all = bare();
    assert(all.drop_first() =~= seq![Version::QMux00, Version::WebTransport]);
    assert(all.drop_first().drop_first() =~= seq![Version::WebTransport]);
    reveal_with_fuel(first_bare, 4);
}

/// Law: a client offers the names of its entries in their order, each under its versions
/// in their order, and behind them the bare versions from the newest to the oldest,
/// unless it insists on a protocol.
pub proof fn lemma_offer_order(entries: Seq<EntryView>, e: EntryView, k: int)
    ensures
        offered(Seq::empty(), true).len() == 0,
        offered(entries, false) == offered(entries, true) + seq![
            "qmux-01"@,
            "qmux-00"@,
            "webtransport"@,
        ],
        e.versions.len() == 0 ==> offered(entries.push(e), true) == offered(entries, true) + seq![
            "qmux-01."@ + e.alpn,
            "qmux-00."@ + e.alpn,
        ],
        e.versions.len() > 0 ==> offered(entries.push(e), true).len() == offered(
            entries,
            true,
        ).len() + e.versions.len(),
        0 <= k < e.versions.len() ==> offered(entries.push(e), true)[offered(entries, true).len()
            + k] == e.versions[k].dotted() + e.alpn,
        0 <= k < offered(entries, true).len() ==> offered(entries.push(e), true)[k] == offered(
            entries,
            true,
        )[k],
{
    lemma_version_names();
    assert(entries.push(e).drop_last() =~= entries);
    assert(bare().map_values(|v: Version| v.name()) =~= seq![
        "qmux-01"@,
        "qmux-00"@,
        "webtransport"@,
    ]);
    if e.versions.len() == 0 {
        assert(entry_names(e) =~= seq!["qmux-01."@ + e.alpn, "qmux-00."@ + e.alpn]);
    }
}

/// Law: what was picked is answered with the name that was offered for it.
pub proof fn lemma_answer(v: Version, alpn: Seq<char>)
    ensures
        selected_name((v, Some(alpn))) == v.dotted() + alpn,
        selected_name((v, None::<Seq<char>>)) == v.name(),
{
}

} // verus!
