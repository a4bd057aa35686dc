//! Mission Control: the bridge from a developer's machine to the Constellation.
//!
//! Mission Control finds the Satellites in the Constellation's document, chooses one for each
//! platform that is asked for, and opens a local socket that leads to it.

use vstd::prelude::*;

use crate::beacon::Beacon;
use crate::bridge;
use crate::bridge::Bridge;
use crate::bridge::BridgeManager;
use crate::console;
use crate::console::Line;
use crate::docker;
use crate::encoding;
use crate::path::FsPath;
use crate::satellite;
use crate::satellite::EntryView;
use crate::satellite::Registration;
use crate::satellite::SatelliteEntry;
use crate::text;

verus! {

/// Why a list of platforms was refused.
#[derive(Debug, PartialEq, Eq)]
pub enum PlatformError {
    /// The list names no platform.
    NoPlatform,
    /// The list names this platform, which is not a Linux platform.
    Unsupported(String),
}

/// The platforms that a comma-separated list names: its pieces without the white space around
/// them, leaving out those that are then empty.
pub open spec fn platform_list(list: Seq<char>) -> Seq<Seq<char>> {
    named_platforms(text::split_on(list, ','))
}

/// The platforms that the pieces of a list name.
pub open spec fn named_platforms(pieces: Seq<Seq<char>>) -> Seq<Seq<char>> {
    pieces.map_values(|piece: Seq<char>| text::trim(piece)).filter(
        |platform: Seq<char>| platform.len() > 0,
    )
}

/// Whether builds for `platform` are supported.
pub open spec fn is_supported(platform: Seq<char>) -> bool {
    text::begins_with(platform, "linux/"@)
}

/// Whether `platforms` is a list that the commands take: not empty, and every platform in it
/// supported.
pub open spec fn is_platform_choice(platforms: Seq<Seq<char>>) -> bool {
    platforms.len() > 0 && forall|i: int|
        0 <= i < platforms.len() ==> is_supported(#[trigger] platforms[i])
}

/// What parsing the list of platforms `list` gives: the platforms that it names, if that is a
/// choice that the commands take, and otherwise an error that names the first platform that is
/// not supported.
pub open spec fn parses_to(list: Seq<char>, res: Result<Vec<String>, PlatformError>) -> bool {
    match res {
        Ok(platforms) => {
            &&& text::texts(platforms@) == platform_list(list)
            &&& is_platform_choice(platform_list(list))
        },
        Err(PlatformError::NoPlatform) => platform_list(list).len() == 0,
        Err(PlatformError::Unsupported(platform)) => exists|i: int|
            {
                &&& 0 <= i < platform_list(list).len()
                &&& platform@ == #[trigger] platform_list(list)[i]
                &&& !is_supported(platform@)
                &&& forall|j: int| 0 <= j < i ==> is_supported(#[trigger] platform_list(list)[j])
            },
    }
}

/// The message that describes an error.
pub open spec fn error_text(error: PlatformError) -> Seq<char> {
    match error {
        PlatformError::NoPlatform => "at least one platform must be specified"@,
        PlatformError::Unsupported(platform) => "unsupported platform '"@ + platform@
            + "': only linux/* platforms are supported"@,
    }
}

impl PlatformError {
    /// The message that describes this error.
    pub fn to_string(&self) -> (message: String)
        ensures
            message@ == error_text(*self),
    {
        match self {
            PlatformError::NoPlatform => "at least one platform must be specified".to_owned(),
            PlatformError::Unsupported(platform) => "unsupported platform '".to_owned().concat(
                platform.as_str(),
            ).concat("': only linux/* platforms are supported"),
        }
    }
}

/// Appends the platform that the piece `from..to` of a list names to `platforms`, if it names
/// one.
fn push_platform(
    list: &str,
    chars: &Vec<char>,
    from: usize,
    to: usize,
    platforms: &mut Vec<String>,
)
    requires
        chars@ == list@,
        from <= to <= chars@.len(),
    ensures
        text::trim(list@.subrange(from as int, to as int)).len() > 0 ==> text::texts(
            final(platforms)@,
        ) == text::texts(old(platforms)@).push(
            text::trim(list@.subrange(from as int, to as int)),
        ),
        text::trim(list@.subrange(from as int, to as int)).len() == 0 ==> text::texts(
            final(platforms)@,
        ) == text::texts(old(platforms)@),
{
    let (start, end) = text::trim_range(chars, from, to);
    if start < end {
        let platform: String = list.substring_char(start, end).to_owned();
        assert(text::texts(platforms@.push(platform)) =~= text::texts(platforms@).push(
            platform@,
        ));
        platforms.push(platform);
    } else {
        assert(list@.subrange(start as int, end as int).len() == 0);
    }
}

/// One more piece names at most one more platform.
proof fn lemma_named_platforms_push(pieces: Seq<Seq<char>>, piece: Seq<char>)
    ensures
        named_platforms(pieces.push(piece)) == if text::trim(piece).len() > 0 {
            named_platforms(pieces).push(text::trim(piece))
        } else {
            named_platforms(pieces)
        },
{
    let f = |piece: Seq<char>| text::trim(piece);
    let p = |platform: Seq<char>| platform.len() > 0;
    reveal(Seq::filter);
    assert(pieces.push(piece).map_values(f).drop_last() =~= pieces.map_values(f));
    assert(pieces.push(piece).map_values(f).last() == text::trim(piece));
}

/// Parses a comma-separated list of platforms, such as `linux/amd64, linux/arm64`.
pub fn parse_platforms(platforms_str: &str) -> (res: Result<Vec<String>, PlatformError>)
    ensures
        parses_to(platforms_str@, res),
{
    let ghost list = platforms_str@;
    let chars: Vec<char> = text::chars_of(platforms_str);
    let mut platforms: Vec<String> = Vec::new();
    let mut start: usize = 0;
    let mut i: usize = 0;
    proof {
        assert(list.take(0) =~= Seq::<char>::empty());
        let pieces = text::split_on(list.take(0), ',');
        reveal(Seq::filter);
        assert(pieces.drop_last() =~= Seq::<Seq<char>>::empty());
        assert(named_platforms(pieces.drop_last()) =~= Seq::<Seq<char>>::empty());
        assert(text::texts(platforms@) =~= Seq::<Seq<char>>::empty());
        assert(list.subrange(0, 0) =~= Seq::<char>::empty());
    }
    while i < chars.len()
        invariant
            list == platforms_str@,
            chars@ == list,
            start <= i <= chars@.len(),
            text::split_on(list.take(i as int), ',').len() > 0,
            text::split_on(list.take(i as int), ',').last() == list.subrange(
                start as int,
                i as int,
            ),
            text::texts(platforms@) == named_platforms(
                text::split_on(list.take(i as int), ',').drop_last(),
            ),
        decreases chars@.len() - i,
    {
        let ghost before = text::split_on(list.take(i as int), ',');
        let ghost after = text::split_on(list.take(i + 1), ',');
        assert(list.take(i + 1).drop_last() =~= list.take(i as int));
        if chars[i] == ',' {
            proof {
                lemma_named_platforms_push(before.drop_last(), before.last());
                assert(before.drop_last().push(before.last()) =~= before);
                assert(after.drop_last() =~= before);
            }
            push_platform(platforms_str, &chars, start, i, &mut platforms);
            start = i + 1;
            assert(list.subrange(i + 1, i + 1) =~= Seq::<char>::empty());
        } else {
            assert(after.drop_last() =~= before.drop_last());
            assert(list.subrange(start as int, i as int).push(list[i as int]) =~= list.subrange(
                start as int,
                i + 1,
            ));
        }
        i = i + 1;
    }
    proof {
        assert(list.take(list.len() as int) =~= list);
        let pieces = text::split_on(list, ',');
        lemma_named_platforms_push(pieces.drop_last(), pieces.last());
        assert(pieces.drop_last().push(pieces.last()) =~= pieces);
    }
    push_platform(platforms_str, &chars, start, chars.len(), &mut platforms);
    if platforms.len() == 0 {
        return Err(PlatformError::NoPlatform);
    }
    let mut k: usize = 0;
    while k < platforms.len()
        invariant
            k <= platforms@.len(),
            text::texts(platforms@) == platform_list(platforms_str@),
            forall|j: int|
                0 <= j < k ==> is_supported(#[trigger] platform_list(platforms_str@)[j]),
        decreases platforms@.len() - k,
    {
        assert(platform_list(platforms_str@)[k as int] == platforms@[k as int]@);
        if !text::starts_with(platforms[k].as_str(), "linux/") {
            return Err(PlatformError::Unsupported(platforms[k].clone()));
        }
        k = k + 1;
    }
    Ok(platforms)
}

/// Whether `platform` can stand in a list as it is: it is not empty, has no white space around
/// it, and holds no comma.
spec fn is_plain(platform: Seq<char>) -> bool {
    platform.len() > 0 && text::trim(platform) == platform && !platform.contains(',')
}

/// The platforms that pieces without commas name can stand in a list as they are.
proof fn lemma_named_platforms_are_plain(pieces: Seq<Seq<char>>)
    requires
        forall|i: int| 0 <= i < pieces.len() ==> !(#[trigger] pieces[i]).contains(','),
    ensures
        forall|i: int|
            0 <= i < named_platforms(pieces).len() ==> is_plain(
                #[trigger] named_platforms(pieces)[i],
            ),
    decreases pieces.len(),
{
    reveal(Seq::filter);
    if pieces.len() > 0 {
        let shorter = pieces.drop_last();
        assert forall|i: int| 0 <= i < shorter.len() implies !(#[trigger] shorter[i]).contains(
            ',',
        ) by {
            assert(shorter[i] == pieces[i]);
        }
        lemma_named_platforms_are_plain(shorter);
        lemma_named_platforms_push(shorter, pieces.last());
        assert(shorter.push(pieces.last()) =~= pieces);
        text::trimming_once_is_enough(pieces.last());
        assert(!pieces[pieces.len() - 1].contains(','));
    }
}

/// Pieces that can stand in a list as they are name themselves.
proof fn lemma_plain_pieces_name_themselves(pieces: Seq<Seq<char>>)
    requires
        forall|i: int| 0 <= i < pieces.len() ==> is_plain(#[trigger] pieces[i]),
    ensures
        named_platforms(pieces) == pieces,
    decreases pieces.len(),
{
    reveal(Seq::filter);
    if pieces.len() > 0 {
        let shorter = pieces.drop_last();
        assert forall|i: int| 0 <= i < shorter.len() implies is_plain(#[trigger] shorter[i]) by {
            assert(shorter[i] == pieces[i]);
        }
        lemma_plain_pieces_name_themselves(shorter);
        lemma_named_platforms_push(shorter, pieces.last());
        assert(is_plain(pieces[pieces.len() - 1]));
        assert(shorter.push(pieces.last()) =~= pieces);
    } else {
        assert(named_platforms(pieces) =~= pieces);
    }
}

/// A list that is made of the platforms of a list names the same platforms.
pub proof fn joined_platforms_are_read_back(list: Seq<char>)
    ensures
        platform_list(text::join(platform_list(list), seq![','])) == platform_list(list),
{
    let platforms = platform_list(list);
    text::split_then_join(list, ',');
    lemma_named_platforms_are_plain(text::split_on(list, ','));
    if platforms.len() > 0 {
        text::join_then_split(platforms, ',');
        lemma_plain_pieces_name_themselves(platforms);
    } else {
        let empty = Seq::<char>::empty();
        let pieces = text::split_on(empty, ',');
        lemma_named_platforms_push(Seq::empty(), empty);
        lemma_plain_pieces_name_themselves(Seq::empty());
        assert(Seq::<Seq<char>>::empty().push(empty) =~= pieces);
        assert(text::trim(empty) == empty);
        assert(named_platforms(pieces) =~= platforms);
    }
}

/// Every platform that can be asked for names an architecture after a `/`, as the sockets need.
pub proof fn chosen_platforms_name_architectures(platforms: Seq<Seq<char>>, i: int)
    requires
        is_platform_choice(platforms),
        0 <= i < platforms.len(),
    ensures
        platforms[i].contains('/'),
{
    reveal_strlit("linux/");
    let p = platforms[i];
    assert(is_supported(p));
    assert(p.take(6)[5] == '/');
    assert(p[5] == '/');
}

/// How Mission Control is to be run.
pub struct MissionControlConfig {
    /// The ticket to the Constellation.
    pub beacon: Beacon,
    /// The platforms that are asked for.
    pub platforms: Vec<String>,
    /// The directory for the sockets.
    pub socket_dir: FsPath,
    /// The directory with the identity of the node.
    pub data_dir: FsPath,
    /// The name of the buildx builder.
    pub builder_name: String,
}

/// What could be read of the value of an entry.
pub enum EntryValue {
    /// The value describes a Satellite.
    Parsed(Registration),
    /// The value was read, but does not describe a Satellite.
    Malformed,
    /// The value could not be read.
    Unreadable,
}

/// An entry of the document.
pub struct DocRow {
    pub key: Vec<u8>,
    pub value: EntryValue,
}

/// The Satellite that an entry of the document describes: its node as the key names it, and
/// what the value says.
pub open spec fn described_satellite(row: DocRow) -> Option<(Seq<char>, Registration)> {
    match (satellite::key_suffix(row.key@), row.value) {
        (Some(suffix), EntryValue::Parsed(value)) => Some((encoding::shown(suffix), value)),
        _ => None,
    }
}

/// The Satellites that the entries of the document describe, in order, one for each entry: its
/// node, and the entry.
pub open spec fn described_satellites(rows: Seq<DocRow>) -> Seq<(Seq<char>, EntryView)>
    decreases rows.len(),
{
    if rows.len() == 0 {
        Seq::empty()
    } else {
        match described_satellite(rows.last()) {
            Some((node, value)) => described_satellites(rows.drop_last()).push(
                (node, value.entry@),
            ),
            None => described_satellites(rows.drop_last()),
        }
    }
}

/// What the Satellite that an entry of the document describes offers, one entry for each
/// architecture that it advertises, each with the node.
pub open spec fn offered_by(row: DocRow) -> Seq<(Seq<char>, EntryView)> {
    match described_satellite(row) {
        Some((node, value)) => value.offered().map_values(|e: EntryView| (node, e)),
        None => Seq::empty(),
    }
}

/// What the Satellites that the entries of the document describe offer, in order.
pub open spec fn offered_by_all(rows: Seq<DocRow>) -> Seq<(Seq<char>, EntryView)>
    decreases rows.len(),
{
    if rows.len() == 0 {
        Seq::empty()
    } else {
        offered_by_all(rows.drop_last()) + offered_by(rows.last())
    }
}

/// What a list of Satellites says.
pub open spec fn listed(entries: Seq<(String, SatelliteEntry)>) -> Seq<(Seq<char>, EntryView)> {
    entries.map_values(|e: (String, SatelliteEntry)| (e.0@, e.1@))
}

/// The Satellite that an entry of the document describes.
fn describe(row: DocRow) -> (found: Option<(String, Registration)>)
    ensures
        match found {
            Some(f) => described_satellite(row) == Some((f.0@, f.1)),
            None => described_satellite(row) is None,
        },
{
    match satellite::strip_key_prefix(row.key.as_slice()) {
        Some(suffix) => {
            let node: String = encoding::utf8_decode_lossy(suffix);
            match row.value {
                EntryValue::Parsed(value) => Some((node, value)),
                EntryValue::Malformed => None,
                EntryValue::Unreadable => None,
            }
        },
        None => None,
    }
}

/// Appends what a Satellite offers to `entries`.
fn push_offers(node: String, value: Registration, entries: &mut Vec<(String, SatelliteEntry)>)
    ensures
        listed(final(entries)@) == listed(old(entries)@) + value.offered().map_values(
            |e: EntryView| (node@, e),
        ),
{
    let ghost offered = value.offered().map_values(|e: EntryView| (node@, e));
    let offers: Vec<SatelliteEntry> = value.offers();
    assert(offers@.map_values(|e: SatelliteEntry| e@).len() == offers@.len());
    let mut i: usize = 0;
    assert(listed(old(entries)@) + offered.take(0) =~= listed(old(entries)@));
    while i < offers.len()
        invariant
            i <= offers@.len(),
            offers@.map_values(|e: SatelliteEntry| e@) == value.offered(),
            offered == value.offered().map_values(|e: EntryView| (node@, e)),
            listed(entries@) == listed(old(entries)@) + offered.take(i as int),
        decreases offers@.len() - i,
    {
        let entry: (String, SatelliteEntry) = (node.clone(), offers[i].clone());
        assert(value.offered()[i as int] == offers@[i as int]@);
        assert(listed(entries@.push(entry)) =~= listed(entries@).push((entry.0@, entry.1@)));
        entries.push(entry);
        assert(listed(entries@) =~= listed(old(entries)@) + offered.take(i + 1));
        i = i + 1;
    }
    assert(offered.take(offered.len() as int) =~= offered);
}

/// The Satellites that the entries of the document describe, one for each entry. What does not
/// describe a Satellite is left out.
pub fn discover_satellites(rows: Vec<DocRow>) -> (entries: Vec<(String, SatelliteEntry)>)
    ensures
        listed(entries@) == described_satellites(rows@),
{
    let mut entries: Vec<(String, SatelliteEntry)> = Vec::new();
    let ghost all = rows@;
    assert(listed(entries@) =~= Seq::<(Seq<char>, EntryView)>::empty());
    assert(all.take(0) =~= Seq::<DocRow>::empty());
    for row in it: rows
        invariant
            it.seq() == all,
            listed(entries@) == described_satellites(all.take(it.index() as int)),
    {
        let ghost longer = all.take(it.index() + 1);
        assert(longer.drop_last() =~= all.take(it.index() as int));
        assert(longer.last() == row);
        match describe(row) {
            Some((node, value)) => {
                let found: (String, SatelliteEntry) = (node, value.entry);
                assert(listed(entries@.push(found)) =~= listed(entries@).push(
                    (found.0@, found.1@),
                ));
                entries.push(found);
            },
            None => {},
        }
    }
    assert(all.take(all.len() as int) =~= all);
    entries
}

/// The Satellites that can be chosen from: those that the entries of the document describe, once
/// for each architecture that they advertise.
pub fn offered_satellites(rows: Vec<DocRow>) -> (entries: Vec<(String, SatelliteEntry)>)
    ensures
        listed(entries@) == offered_by_all(rows@),
{
    let mut entries: Vec<(String, SatelliteEntry)> = Vec::new();
    let ghost all = rows@;
    assert(listed(entries@) =~= Seq::<(Seq<char>, EntryView)>::empty());
    assert(all.take(0) =~= Seq::<DocRow>::empty());
    for row in it: rows
        invariant
            it.seq() == all,
            listed(entries@) == offered_by_all(all.take(it.index() as int)),
    {
        let ghost longer = all.take(it.index() + 1);
        assert(longer.drop_last() =~= all.take(it.index() as int));
        assert(longer.last() == row);
        match describe(row) {
            Some((node, value)) => {
                push_offers(node, value, &mut entries);
            },
            None => {
                assert(listed(entries@) + offered_by(row) =~= listed(entries@));
            },
        }
    }
    assert(all.take(all.len() as int) =~= all);
    entries
}

/// What the change of an entry means to Mission Control.
pub enum SatelliteChange {
    /// The entry is not about a Satellite, or could not be read.
    Nothing,
    /// This Satellite has registered or changed.
    Updated(String, SatelliteEntry),
    /// This Satellite is offline now.
    WentOffline(String, SatelliteEntry),
}

/// What the change of an entry of the document means to Mission Control.
pub fn satellite_change(row: DocRow) -> (change: SatelliteChange)
    ensures
        match described_satellite(row) {
            None => change is Nothing,
            Some((node, value)) => if value.entry.status@ == satellite::status_text(
                satellite::SatelliteStatus::Offline,
            ) {
                change matches SatelliteChange::WentOffline(n, entry) && n@ == node && entry
                    == value.entry
            } else {
                change matches SatelliteChange::Updated(n, entry) && n@ == node && entry
                    == value.entry
            },
        },
{
    match describe(row) {
        Some((node, value)) => {
            let entry: SatelliteEntry = value.entry;
            if text::same_text(entry.status.as_str(), "offline") {
                SatelliteChange::WentOffline(node, entry)
            } else {
                SatelliteChange::Updated(node, entry)
            }
        },
        None => SatelliteChange::Nothing,
    }
}

/// Whether a Satellite can take builds for the architecture `arch`.
pub open spec fn is_available(entry: SatelliteEntry, arch: Seq<char>) -> bool {
    entry.arch@ == arch && entry.status@ == satellite::status_text(
        satellite::SatelliteStatus::Idle,
    )
}

/// Whether the Satellite with the number `i` is the best of `entries` for the architecture
/// `arch`: it can take builds, and of those that can it is the one that was heard of most
/// recently, or the last one of these.
pub open spec fn is_best(entries: Seq<(String, SatelliteEntry)>, arch: Seq<char>, i: int) -> bool {
    &&& 0 <= i < entries.len()
    &&& is_available(entries[i].1, arch)
    &&& forall|j: int|
        0 <= j < entries.len() && is_available((#[trigger] entries[j]).1, arch) ==> {
            ||| entries[j].1.registered_at < entries[i].1.registered_at
            ||| entries[j].1.registered_at == entries[i].1.registered_at && j <= i
        }
}

/// The best Satellite of `entries` for the architecture `arch`.
pub open spec fn best_satellite(
    entries: Seq<(String, SatelliteEntry)>,
    arch: Seq<char>,
) -> Option<SatelliteEntry> {
    if exists|i: int| is_best(entries, arch, i) {
        Some(entries[choose|i: int| is_best(entries, arch, i)].1)
    } else {
        None
    }
}

/// The best Satellite for an architecture: of those that are idle, the one that was heard of
/// most recently.
pub fn select_satellite_for_arch<'a>(
    entries: &'a [(String, SatelliteEntry)],
    arch: &str,
) -> (best: Option<&'a SatelliteEntry>)
    ensures
        match best {
            Some(entry) => best_satellite(entries@, arch@) == Some(*entry) && exists|i: int| #[trigger]
                is_best(entries@, arch@, i) && entries@[i].1 == *entry,
            None => best_satellite(entries@, arch@) is None && forall|i: int|
                0 <= i < entries@.len() ==> !is_available((#[trigger] entries@[i]).1, arch@),
        },
{
    let mut best: Option<usize> = None;
    let mut i: usize = 0;
    while i < entries.len()
        invariant
            i <= entries@.len(),
            match best {
                Some(b) => b < i && is_best(entries@.take(i as int), arch@, b as int),
                None => forall|j: int|
                    0 <= j < i ==> !is_available((#[trigger] entries@[j]).1, arch@),
            },
        decreases entries@.len() - i,
    {
        let ghost shorter = entries@.take(i as int);
        let ghost longer = entries@.take(i + 1);
        assert(forall|j: int| 0 <= j < i ==> longer[j] == shorter[j]);
        assert(longer[i as int] == entries@[i as int]);
        let entry: &SatelliteEntry = &entries[i].1;
        if text::same_text(entry.arch.as_str(), arch) && text::same_text(
            entry.status.as_str(),
            "idle",
        ) {
            let better: bool = match best {
                Some(b) => entries[b].1.registered_at <= entry.registered_at,
                None => true,
            };
            if better {
                proof {
                    if let Some(b) = best {
                        assert(shorter[b as int] == entries@[b as int]);
                    }
                    assert forall|j: int|
                        0 <= j < longer.len() && is_available(
                            (#[trigger] longer[j]).1,
                            arch@,
                        ) implies longer[j].1.registered_at <= entry.registered_at by {
                        if j < i {
                            assert(longer[j] == shorter[j]);
                            assert(longer[j] == entries@[j]);
                        }
                    }
                    assert(is_best(longer, arch@, i as int));
                }
                best = Some(i);
            } else {
                assert(is_best(longer, arch@, best->0 as int));
            }
        } else {
            assert(!is_available(entries@[i as int].1, arch@));
            proof {
                if let Some(b) = best {
                    assert(is_best(longer, arch@, b as int));
                }
            }
        }
        i = i + 1;
    }
    assert(entries@.take(entries@.len() as int) =~= entries@);
    match best {
        Some(b) => {
            proof {
                let other = choose|i: int| is_best(entries@, arch@, i);
                best_satellite_is_unique(entries@, arch@, b as int, other);
            }
            Some(&entries[b].1)
        },
        None => None,
    }
}

/// No two Satellites are both the best.
proof fn best_satellite_is_unique(
    entries: Seq<(String, SatelliteEntry)>,
    arch: Seq<char>,
    i: int,
    j: int,
)
    requires
        is_best(entries, arch, i),
        is_best(entries, arch, j),
    ensures
        i == j,
{
    assert(is_available(entries[i].1, arch));
    assert(is_available(entries[j].1, arch));
}

/// There is a best Satellite exactly if one is idle and of the architecture, and the best one
/// was heard of no earlier than any of those.
pub proof fn idle_satellites_are_found(
    entries: Seq<(String, SatelliteEntry)>,
    arch: Seq<char>,
    i: int,
)
    requires
        0 <= i < entries.len(),
        is_available(entries[i].1, arch),
    ensures
        best_satellite(entries, arch) matches Some(best) && {
            &&& is_available(best, arch)
            &&& best.registered_at >= entries[i].1.registered_at
        },
{
    lemma_best_exists(entries, arch, i);
    let b = choose|b: int| is_best(entries, arch, b);
    assert(is_best(entries, arch, b));
}

/// Where a Satellite can take builds, one of them is the best.
proof fn lemma_best_exists(entries: Seq<(String, SatelliteEntry)>, arch: Seq<char>, i: int)
    requires
        0 <= i < entries.len(),
        is_available(entries[i].1, arch),
    ensures
        exists|b: int| is_best(entries, arch, b),
    decreases entries.len(),
{
    let last = entries.len() - 1;
    let shorter = entries.drop_last();
    if exists|k: int| 0 <= k < shorter.len() && is_available((#[trigger] shorter[k]).1, arch) {
        let k = choose|k: int|
            0 <= k < shorter.len() && is_available((#[trigger] shorter[k]).1, arch);
        lemma_best_exists(shorter, arch, k);
        let b = choose|b: int| is_best(shorter, arch, b);
        assert(shorter[b] == entries[b]);
        if is_available(entries[last].1, arch) && entries[last].1.registered_at
            >= entries[b].1.registered_at {
            assert forall|j: int|
                0 <= j < entries.len() && is_available(
                    (#[trigger] entries[j]).1,
                    arch,
                ) implies entries[j].1.registered_at <= entries[last].1.registered_at by {
                if j < last {
                    assert(shorter[j] == entries[j]);
                }
            }
            assert(is_best(entries, arch, last));
        } else {
            assert forall|j: int|
                0 <= j < entries.len() && is_available((#[trigger] entries[j]).1, arch) implies {
                ||| entries[j].1.registered_at < entries[b].1.registered_at
                ||| entries[j].1.registered_at == entries[b].1.registered_at && j <= b
            } by {
                if j < last {
                    assert(shorter[j] == entries[j]);
                }
            }
            assert(is_best(entries, arch, b));
        }
    } else {
        assert forall|j: int|
            0 <= j < entries.len() && is_available((#[trigger] entries[j]).1, arch) implies j
            == last by {
            if j < last {
                assert(shorter[j] == entries[j]);
            }
        }
        assert(is_best(entries, arch, last));
    }
}

/// Where no Satellite advertises further platforms, those that can be chosen from are those that
/// the entries describe.
pub proof fn offers_are_the_described_satellites(rows: Seq<DocRow>)
    requires
        forall|i: int|
            0 <= i < rows.len() ==> (described_satellite(#[trigger] rows[i]) matches Some(
                (node, value),
            ) ==> value.extra_platforms@.len() == 0),
    ensures
        offered_by_all(rows) == described_satellites(rows),
    decreases rows.len(),
{
    if rows.len() > 0 {
        let shorter = rows.drop_last();
        assert forall|i: int| 0 <= i < shorter.len() implies (described_satellite(
            #[trigger] shorter[i],
        ) matches Some((node, value)) ==> value.extra_platforms@.len() == 0) by {
            assert(shorter[i] == rows[i]);
        }
        offers_are_the_described_satellites(shorter);
        assert(rows[rows.len() - 1] == rows.last());
        match described_satellite(rows.last()) {
            Some((node, value)) => {
                assert(offered_by(rows.last()) =~= seq![(node, value.entry@)]);
                assert(offered_by_all(rows) =~= described_satellites(rows));
            },
            None => {
                assert(offered_by_all(rows) =~= described_satellites(rows));
            },
        }
    }
}

/// What a row of the document offers is among what all rows offer.
proof fn lemma_offers_are_listed(rows: Seq<DocRow>, i: int, k: int)
    requires
        0 <= i < rows.len(),
        0 <= k < offered_by(rows[i]).len(),
    ensures
        offered_by_all(rows).contains(offered_by(rows[i])[k]),
    decreases rows.len(),
{
    let shorter = rows.drop_last();
    let before = offered_by_all(shorter);
    let all = offered_by_all(rows);
    let offer = offered_by(rows[i])[k];
    if i < shorter.len() {
        assert(shorter[i] == rows[i]);
        lemma_offers_are_listed(shorter, i, k);
        let m = choose|m: int| 0 <= m < before.len() && before[m] == offer;
        assert(all[m] == offer);
    } else {
        assert(all[before.len() + k] == offer);
    }
}

/// A Satellite that is idle is found for every platform that it advertises, its own and the
/// others: a Satellite is chosen, and it was heard of no earlier.
pub proof fn advertised_platforms_are_found(
    rows: Seq<DocRow>,
    entries: Seq<(String, SatelliteEntry)>,
    i: int,
    platform: Seq<char>,
)
    requires
        listed(entries) == offered_by_all(rows),
        0 <= i < rows.len(),
        described_satellite(rows[i]) matches Some((node, value)) && {
            &&& value.platforms().contains(platform)
            &&& value.entry.status@ == satellite::status_text(satellite::SatelliteStatus::Idle)
            &&& !value.entry.arch@.contains('/')
        },
    ensures
        best_satellite(entries, docker::arch_of(platform)) matches Some(best) && {
            &&& is_available(best, docker::arch_of(platform))
            &&& best.registered_at >= (described_satellite(rows[i])->0).1.entry.registered_at
        },
{
    let (node, value) = described_satellite(rows[i])->0;
    let k = choose|k: int| 0 <= k < value.platforms().len() && value.platforms()[k] == platform;
    let offers = offered_by(rows[i]);
    assert(offers.len() == value.platforms().len());
    let offer = offers[k];
    if k == 0 {
        reveal_strlit("linux/");
        text::after_last_of_opened("linux/"@, value.entry.arch@, '/');
    } else {
        assert(platform == text::texts(value.extra_platforms@)[k - 1]);
    }
    assert(offer.1.arch == docker::arch_of(platform));
    lemma_offers_are_listed(rows, i, k);
    let m = choose|m: int| 0 <= m < offered_by_all(rows).len() && offered_by_all(rows)[m] == offer;
    assert(listed(entries)[m] == (entries[m].0@, entries[m].1@));
    idle_satellites_are_found(entries, docker::arch_of(platform), m);
}

/// What a Satellite reports on joining, and with every sign of life, makes it available for its
/// architecture; what it reports on stopping makes it unavailable.
pub proof fn reports_decide_availability(
    occasion: satellite::Occasion,
    entry: SatelliteEntry,
    arch: Seq<char>,
)
    requires
        entry.status@ == satellite::status_text(satellite::reported_status(occasion)),
    ensures
        is_available(entry, arch) <==> entry.arch@ == arch && !(occasion is Shutdown),
{
    reveal_strlit("idle");
    reveal_strlit("offline");
    assert("idle"@.len() != "offline"@.len());
}

/// The bridge for `platform` to the Satellite that `entry` describes.
pub open spec fn bridge_to(
    platform: Seq<char>,
    socket_dir: Seq<u8>,
    entry: SatelliteEntry,
) -> bridge::BridgeView {
    bridge::BridgeView {
        platform,
        socket_path: docker::socket_path(socket_dir, platform),
        satellite_addr: entry.endpoint_addr,
        active_connections: 0,
    }
}

/// The bridges for `platforms`, in order, each to the best Satellite for it. Platforms for which
/// there is none are left out.
pub open spec fn planned_bridges(
    platforms: Seq<Seq<char>>,
    socket_dir: Seq<u8>,
    entries: Seq<(String, SatelliteEntry)>,
) -> Seq<bridge::BridgeView>
    decreases platforms.len(),
{
    if platforms.len() == 0 {
        Seq::empty()
    } else {
        let before = planned_bridges(platforms.drop_last(), socket_dir, entries);
        match best_satellite(entries, docker::arch_of(platforms.last())) {
            Some(entry) => before.push(bridge_to(platforms.last(), socket_dir, entry)),
            None => before,
        }
    }
}

/// There is no idle Satellite for any of the platforms.
pub struct NoIdleSatellites {
    pub platforms: Vec<String>,
}

impl NoIdleSatellites {
    /// The message that describes this error.
    pub fn to_string(&self) -> (message: String)
        ensures
            message@ == "no idle satellites found for any requested platform: "@
                + text::debug_list(text::texts(self.platforms@)),
    {
        "no idle satellites found for any requested platform: ".to_owned().concat(
            text::debug_texts(&self.platforms).as_str(),
        )
    }
}

/// Sets up a bridge for each platform for which there is an idle Satellite.
pub fn set_up_bridges(
    platforms: &Vec<String>,
    socket_dir: &FsPath,
    entries: &[(String, SatelliteEntry)],
) -> (res: Result<BridgeManager, NoIdleSatellites>)
    requires
        forall|i: int| 0 <= i < platforms@.len() ==> (#[trigger] platforms@[i])@.contains('/'),
    ensures
        match res {
            Ok(manager) => {
                &&& manager.added() == planned_bridges(
                    text::texts(platforms@),
                    socket_dir@,
                    entries@,
                )
                &&& manager.added().len() > 0
                &&& forall|i: int|
                    0 <= i < manager.added().len() ==> {
                        let b = #[trigger] manager.added()[i];
                        &&& text::texts(platforms@).contains(b.platform)
                        &&& b.socket_path == docker::socket_path(socket_dir@, b.platform)
                        &&& b.active_connections == 0
                    }
                &&& forall|p: Seq<char>| #[trigger]
                    manager@.contains_key(p) ==> manager@[p].platform == p
                        && manager@[p].socket_path == docker::socket_path(socket_dir@, p)
            },
            Err(e) => {
                &&& planned_bridges(text::texts(platforms@), socket_dir@, entries@).len() == 0
                &&& text::texts(e.platforms@) == text::texts(platforms@)
            },
        },
{
    let mut manager: BridgeManager = BridgeManager::new();
    let ghost names = text::texts(platforms@);
    let mut i: usize = 0;
    assert(names.take(0) =~= Seq::<Seq<char>>::empty());
    while i < platforms.len()
        invariant
            i <= platforms@.len(),
            names == text::texts(platforms@),
            forall|i: int| 0 <= i < platforms@.len() ==> (#[trigger] platforms@[i])@.contains('/'),
            manager.added() == planned_bridges(names.take(i as int), socket_dir@, entries@),
        decreases platforms@.len() - i,
    {
        assert(names.take(i + 1).drop_last() =~= names.take(i as int));
        assert(names.take(i + 1).last() == platforms@[i as int]@);
        let platform: &str = platforms[i].as_str();
        match select_satellite_for_arch(entries, docker::platform_to_arch(platform)) {
            Some(entry) => {
                let socket: FsPath = docker::socket_path_for_platform(socket_dir, platform);
                manager.add_bridge(
                    Bridge::new(platform.to_owned(), socket, entry.endpoint_addr.clone()),
                );
            },
            None => {},
        }
        i = i + 1;
    }
    assert(names.take(names.len() as int) =~= names);
    assert forall|i: int| 0 <= i < manager.added().len() implies {
        let b = #[trigger] manager.added()[i];
        &&& names.contains(b.platform)
        &&& b.socket_path == docker::socket_path(socket_dir@, b.platform)
        &&& b.active_connections == 0
    } by {
        bridges_open_the_sockets_of_their_platforms(names, socket_dir@, entries@, i);
    }
    assert forall|p: Seq<char>| #[trigger] manager@.contains_key(p) implies manager@[p].platform
        == p && manager@[p].socket_path == docker::socket_path(socket_dir@, p) by {
        bridges_lead_to_best_satellites(names, socket_dir@, entries@, p);
    }
    if manager.task_count() == 0 {
        Err(NoIdleSatellites { platforms: text::copy_texts(platforms) })
    } else {
        Ok(manager)
    }
}

/// There is a bridge for a platform exactly if it was asked for and an idle Satellite of its
/// architecture is registered; and it leads to the best of them.
pub proof fn bridges_lead_to_best_satellites(
    platforms: Seq<Seq<char>>,
    socket_dir: Seq<u8>,
    entries: Seq<(String, SatelliteEntry)>,
    platform: Seq<char>,
)
    ensures
        ({
            let bridges = bridge::by_platform(planned_bridges(platforms, socket_dir, entries));
            let best = best_satellite(entries, docker::arch_of(platform));
            &&& bridges.contains_key(platform) <==> platforms.contains(platform) && best is Some
            &&& bridges.contains_key(platform) ==> bridges[platform] == bridge_to(
                platform,
                socket_dir,
                best->0,
            )
            &&& bridges.contains_key(platform) ==> {
                &&& bridges[platform].platform == platform
                &&& bridges[platform].socket_path == docker::socket_path(socket_dir, platform)
                &&& bridges[platform].satellite_addr == best->0.endpoint_addr
                &&& bridges[platform].active_connections == 0
            }
        }),
    decreases platforms.len(),
{
    if platforms.len() > 0 {
        let shorter = platforms.drop_last();
        bridges_lead_to_best_satellites(shorter, socket_dir, entries, platform);
        let before = planned_bridges(shorter, socket_dir, entries);
        let after = planned_bridges(platforms, socket_dir, entries);
        if after.len() > before.len() {
            assert(after.drop_last() =~= before);
        }
        if shorter.contains(platform) {
            let k = choose|k: int| 0 <= k < shorter.len() && shorter[k] == platform;
            assert(platforms[k] == platform);
        }
        assert(platforms[platforms.len() - 1] == platforms.last());
        if platforms.contains(platform) && platforms.last() != platform {
            let k = choose|k: int| 0 <= k < platforms.len() && platforms[k] == platform;
            assert(shorter[k] == platform);
        }
    }
}

/// The line about a platform that is connected.
pub open spec fn connection_text(platform: Seq<char>, socket: Seq<u8>) -> Seq<char> {
    "  "@ + platform + " → "@ + encoding::shown(socket)
}

/// What Mission Control prints when it is running.
pub open spec fn running_text(platforms: Seq<Seq<char>>, socket_dir: Seq<u8>) -> Seq<
    console::LineView,
> {
    seq![console::err("Mission Control is running."@)] + platforms.map_values(
        |p: Seq<char>|
            console::err(connection_text(p, docker::socket_path(socket_dir, p))),
    ) + seq![
        console::err(""@),
        console::err("Waiting for connections... (Ctrl+C to stop)"@),
    ]
}

/// The line about a platform that is connected.
pub fn connection_line(platform: &str, socket: &FsPath) -> (text: String)
    ensures
        text@ == connection_text(platform@, socket@),
{
    "  ".to_owned().concat(platform).concat(" → ").concat(socket.display().as_str())
}

/// What Mission Control prints when the bridges for `platforms` are running.
pub fn running_lines(platforms: &Vec<String>, socket_dir: &FsPath) -> (lines: Vec<Line>)
    requires
        forall|i: int| 0 <= i < platforms@.len() ==> (#[trigger] platforms@[i])@.contains('/'),
    ensures
        console::printed(lines@) == running_text(text::texts(platforms@), socket_dir@),
{
    let ghost names = text::texts(platforms@);
    let ghost line = |p: Seq<char>|
        console::err(connection_text(p, docker::socket_path(socket_dir@, p)));
    let mut lines: Vec<Line> = vec![Line::Stderr("Mission Control is running.".to_owned())];
    let mut i: usize = 0;
    assert(console::printed(lines@) =~= seq![console::err("Mission Control is running."@)]
        + names.take(0).map_values(line));
    while i < platforms.len()
        invariant
            i <= platforms@.len(),
            names == text::texts(platforms@),
            line == (|p: Seq<char>|
                console::err(connection_text(p, docker::socket_path(socket_dir@, p)))),
            forall|i: int| 0 <= i < platforms@.len() ==> (#[trigger] platforms@[i])@.contains('/'),
            console::printed(lines@) == seq![console::err("Mission Control is running."@)]
                + names.take(i as int).map_values(line),
        decreases platforms@.len() - i,
    {
        let platform: &str = platforms[i].as_str();
        let socket: FsPath = docker::socket_path_for_platform(socket_dir, platform);
        let next: Line = Line::Stderr(connection_line(platform, &socket));
        assert(names.take(i + 1) =~= names.take(i as int).push(platform@));
        assert(names.take(i + 1).map_values(line) =~= names.take(i as int).map_values(line).push(
            next@,
        ));
        assert(console::printed(lines@.push(next)) =~= console::printed(lines@).push(next@));
        lines.push(next);
        assert(console::printed(lines@) =~= seq![console::err("Mission Control is running."@)]
            + names.take(i + 1).map_values(line));
        i = i + 1;
    }
    assert(names.take(names.len() as int) =~= names);
    lines.push(Line::Stderr("".to_owned()));
    lines.push(Line::Stderr("Waiting for connections... (Ctrl+C to stop)".to_owned()));
    assert(console::printed(lines@) =~= running_text(names, socket_dir@));
    lines
}

/// The platforms that two lists of pieces name are those of the one and those of the other.
proof fn lemma_named_platforms_of_both(a: Seq<Seq<char>>, b: Seq<Seq<char>>)
    ensures
        named_platforms(a + b) == named_platforms(a) + named_platforms(b),
    decreases b.len(),
{
    if b.len() == 0 {
        assert(a + b =~= a);
        lemma_plain_pieces_name_themselves(b);
        assert(named_platforms(a) + b =~= named_platforms(a));
    } else {
        let shorter = b.drop_last();
        lemma_named_platforms_of_both(a, shorter);
        lemma_named_platforms_push(shorter, b.last());
        lemma_named_platforms_push(a + shorter, b.last());
        assert(shorter.push(b.last()) =~= b);
        assert((a + shorter).push(b.last()) =~= a + b);
        assert(named_platforms(a + b) =~= named_platforms(a) + named_platforms(b));
    }
}

/// A list is read piece by piece: what stands before a comma names its platforms, and then what
/// stands behind it; and a piece names what is left of it without the white space around it, or
/// nothing if nothing is left.
pub proof fn lists_are_read_piece_by_piece(a: Seq<char>, b: Seq<char>)
    ensures
        platform_list(a.push(',') + b) == platform_list(a) + platform_list(b),
        !a.contains(',') && text::trim(a).len() > 0 ==> platform_list(a) == seq![text::trim(a)],
        !a.contains(',') && text::trim(a).len() == 0 ==> platform_list(a).len() == 0,
{
    text::splitting_goes_piece_by_piece(a, b, ',');
    lemma_named_platforms_of_both(text::split_on(a, ','), text::split_on(b, ','));
    if !a.contains(',') {
        lemma_named_platforms_push(Seq::empty(), a);
        lemma_plain_pieces_name_themselves(Seq::empty());
        assert(Seq::<Seq<char>>::empty().push(a) =~= seq![a]);
    }
}

/// A platform is supported exactly if it begins with `linux/`.
pub proof fn supported_platforms_are_linux_platforms(platform: Seq<char>)
    ensures
        is_supported(platform) <==> exists|rest: Seq<char>| platform == #[trigger] ("linux/"@ + rest),
{
    text::beginning_is_a_prefix(platform, "linux/"@);
}

/// A list is accepted exactly if it names a platform, and only supported ones. What is then
/// returned are all the platforms that it names, in order. Otherwise the error says whether no
/// platform is named, or which of them is the first that is not supported.
pub proof fn lists_of_supported_platforms_are_accepted(
    list: Seq<char>,
    res: Result<Vec<String>, PlatformError>,
)
    requires
        parses_to(list, res),
    ensures
        res is Ok <==> platform_list(list).len() > 0 && forall|i: int|
            0 <= i < platform_list(list).len() ==> text::begins_with(
                #[trigger] platform_list(list)[i],
                "linux/"@,
            ),
        res matches Ok(platforms) ==> {
            &&& platforms@.len() == platform_list(list).len()
            &&& forall|i: int|
                0 <= i < platforms@.len() ==> (#[trigger] platforms@[i])@ == platform_list(list)[i]
        },
        res == Err::<Vec<String>, PlatformError>(PlatformError::NoPlatform) <==> platform_list(
            list,
        ).len() == 0,
        res matches Err(PlatformError::Unsupported(platform)) ==> exists|i: int|
            {
                &&& 0 <= i < platform_list(list).len()
                &&& platform@ == #[trigger] platform_list(list)[i]
                &&& !text::begins_with(platform@, "linux/"@)
                &&& forall|j: int|
                    0 <= j < i ==> text::begins_with(
                        #[trigger] platform_list(list)[j],
                        "linux/"@,
                    )
            },
{
    match res {
        Ok(platforms) => {
            assert forall|i: int| 0 <= i < platforms@.len() implies (#[trigger] platforms@[i])@
                == platform_list(list)[i] by {
                assert(text::texts(platforms@)[i] == platforms@[i]@);
            }
            assert(text::texts(platforms@).len() == platforms@.len());
            assert forall|i: int| 0 <= i < platform_list(list).len() implies text::begins_with(
                #[trigger] platform_list(list)[i],
                "linux/"@,
            ) by {
                assert(is_supported(platform_list(list)[i]));
            }
        },
        Err(PlatformError::NoPlatform) => {},
        Err(PlatformError::Unsupported(platform)) => {
            let i = choose|i: int|
                {
                    &&& 0 <= i < platform_list(list).len()
                    &&& platform@ == #[trigger] platform_list(list)[i]
                    &&& !is_supported(platform@)
                    &&& forall|j: int|
                        0 <= j < i ==> is_supported(#[trigger] platform_list(list)[j])
                };
            assert forall|j: int| 0 <= j < i implies text::begins_with(
                #[trigger] platform_list(list)[j],
                "linux/"@,
            ) by {
                assert(is_supported(platform_list(list)[j]));
            }
        },
    }
}

/// How an error about a list of platforms is worded.
pub proof fn platform_errors_name_the_platform(platform: String)
    ensures
        error_text(PlatformError::NoPlatform) == "at least one platform must be specified"@,
        error_text(PlatformError::Unsupported(platform)) == "unsupported platform '"@ + platform@
            + "': only linux/* platforms are supported"@,
{
}

/// A row describes a Satellite exactly if its key begins with `satellite/` and its value could be
/// read: the Satellite's node is the rest of the key, and its registration is the value.
pub proof fn rows_describe_registered_satellites(row: DocRow, suffix: Seq<u8>)
    ensures
        satellite::key_suffix(row.key@) is None ==> described_satellite(row) is None,
        satellite::key_suffix(row.key@) == Some(suffix) ==> match row.value {
            EntryValue::Parsed(value) => described_satellite(row) == Some(
                (encoding::shown(suffix), value),
            ),
            EntryValue::Malformed => described_satellite(row) is None,
            EntryValue::Unreadable => described_satellite(row) is None,
        },
{
}

/// Every row counts once, in order: one more row adds the one Satellite that it describes, as the
/// entry in it has it, or none; and adds all that this Satellite offers to what can be chosen from.
pub proof fn every_row_adds_its_satellite(rows: Seq<DocRow>, row: DocRow)
    ensures
        described_satellites(Seq::empty()).len() == 0,
        offered_by_all(Seq::empty()).len() == 0,
        match described_satellite(row) {
            Some((node, value)) => {
                let offers = offered_by_all(rows.push(row));
                let before = offered_by_all(rows).len() as int;
                &&& described_satellites(rows.push(row)) == described_satellites(rows).push(
                    (node, value.entry@),
                )
                &&& offers.len() == before + value.offered().len()
                &&& offers.take(before) == offered_by_all(rows)
                &&& forall|k: int|
                    0 <= k < value.offered().len() ==> offers[before + k] == (
                        node,
                        #[trigger] value.offered()[k],
                    )
            },
            None => {
                &&& described_satellites(rows.push(row)) == described_satellites(rows)
                &&& offered_by_all(rows.push(row)) == offered_by_all(rows)
            },
        },
{
    assert(rows.push(row).drop_last() =~= rows);
    assert(rows.push(row).last() == row);
    match described_satellite(row) {
        Some((node, value)) => {
            let offers = offered_by_all(rows.push(row));
            let before = offered_by_all(rows);
            assert(offers == before + value.offered().map_values(|e: EntryView| (node, e)));
            assert(offers.take(before.len() as int) =~= before);
        },
        None => {
            assert(offered_by_all(rows.push(row)) =~= offered_by_all(rows));
        },
    }
}

/// What a list of Satellites says is what its entries say, all of them, in order.
pub proof fn listed_satellites_are_all_entries(entries: Seq<(String, SatelliteEntry)>)
    ensures
        listed(entries).len() == entries.len(),
        forall|i: int|
            0 <= i < entries.len() ==> #[trigger] listed(entries)[i] == (
                entries[i].0@,
                entries[i].1@,
            ),
{
}

/// The best Satellite for an architecture is one of that architecture that is `idle`; no other of
/// these was heard of later, nor, at the same time, stands further back. Where there is no best
/// Satellite, none of that architecture is `idle`.
pub proof fn best_satellite_is_the_latest_idle_one(
    entries: Seq<(String, SatelliteEntry)>,
    arch: Seq<char>,
)
    ensures
        match best_satellite(entries, arch) {
            Some(best) => exists|i: int|
                {
                    &&& 0 <= i < entries.len()
                    &&& (#[trigger] entries[i]).1 == best
                    &&& best.arch@ == arch
                    &&& best.status@ == "idle"@
                    &&& forall|j: int|
                        0 <= j < entries.len() && (#[trigger] entries[j]).1.arch@ == arch
                            && entries[j].1.status@ == "idle"@ ==> {
                            ||| entries[j].1.registered_at < best.registered_at
                            ||| entries[j].1.registered_at == best.registered_at && j <= i
                        }
                },
            None => forall|j: int|
                0 <= j < entries.len() ==> (#[trigger] entries[j]).1.arch@ != arch
                    || entries[j].1.status@ != "idle"@,
        },
{
    match best_satellite(entries, arch) {
        Some(best) => {
            let i = choose|i: int| is_best(entries, arch, i);
            assert(is_best(entries, arch, i));
            assert(entries[i].1 == best);
            assert forall|j: int|
                0 <= j < entries.len() && (#[trigger] entries[j]).1.arch@ == arch
                    && entries[j].1.status@ == "idle"@ implies {
                ||| entries[j].1.registered_at < best.registered_at
                ||| entries[j].1.registered_at == best.registered_at && j <= i
            } by {
                assert(is_available(entries[j].1, arch));
            }
        },
        None => {
            assert forall|j: int| 0 <= j < entries.len() implies (#[trigger] entries[j]).1.arch@
                != arch || entries[j].1.status@ != "idle"@ by {
                if is_available(entries[j].1, arch) {
                    idle_satellites_are_found(entries, arch, j);
                }
            }
        },
    }
}

/// Every bridge is for a platform that was asked for, opens the socket of that platform, carries
/// nothing yet, and leads to an `idle` Satellite of the platform's architecture.
pub proof fn bridges_open_the_sockets_of_their_platforms(
    platforms: Seq<Seq<char>>,
    socket_dir: Seq<u8>,
    entries: Seq<(String, SatelliteEntry)>,
    i: int,
)
    requires
        0 <= i < planned_bridges(platforms, socket_dir, entries).len(),
    ensures
        ({
            let b = planned_bridges(platforms, socket_dir, entries)[i];
            &&& platforms.contains(b.platform)
            &&& b.socket_path == docker::socket_path(socket_dir, b.platform)
            &&& b.active_connections == 0
            &&& exists|k: int|
                0 <= k < entries.len() && (#[trigger] entries[k]).1.endpoint_addr
                    == b.satellite_addr && entries[k].1.arch@ == docker::arch_of(b.platform)
                    && entries[k].1.status@ == "idle"@
        }),
    decreases platforms.len(),
{
    let shorter = platforms.drop_last();
    let before = planned_bridges(shorter, socket_dir, entries);
    let b = planned_bridges(platforms, socket_dir, entries)[i];
    if i < before.len() {
        bridges_open_the_sockets_of_their_platforms(shorter, socket_dir, entries, i);
        let k = choose|k: int| 0 <= k < shorter.len() && shorter[k] == b.platform;
        assert(platforms[k] == b.platform);
    } else {
        assert(platforms[platforms.len() - 1] == b.platform);
        best_satellite_is_the_latest_idle_one(entries, docker::arch_of(b.platform));
    }
}

/// Two bridges share a socket exactly if their platforms name the same architecture.
pub proof fn bridges_of_different_architectures_have_different_sockets(
    platforms: Seq<Seq<char>>,
    socket_dir: Seq<u8>,
    entries: Seq<(String, SatelliteEntry)>,
    i: int,
    j: int,
)
    requires
        0 <= i < planned_bridges(platforms, socket_dir, entries).len(),
        0 <= j < planned_bridges(platforms, socket_dir, entries).len(),
    ensures
        ({
            let a = planned_bridges(platforms, socket_dir, entries)[i];
            let b = planned_bridges(platforms, socket_dir, entries)[j];
            a.socket_path == b.socket_path <==> docker::arch_of(a.platform) == docker::arch_of(
                b.platform,
            )
        }),
{
    bridges_open_the_sockets_of_their_platforms(platforms, socket_dir, entries, i);
    bridges_open_the_sockets_of_their_platforms(platforms, socket_dir, entries, j);
    docker::sockets_tell_architectures_apart(
        socket_dir,
        planned_bridges(platforms, socket_dir, entries)[i].platform,
        planned_bridges(platforms, socket_dir, entries)[j].platform,
    );
}

/// One more platform adds one bridge at the end, for this platform, if there is a best Satellite
/// for it, and none otherwise; the other bridges stay as they are.
pub proof fn every_platform_adds_its_bridge(
    platforms: Seq<Seq<char>>,
    platform: Seq<char>,
    socket_dir: Seq<u8>,
    entries: Seq<(String, SatelliteEntry)>,
)
    ensures
        planned_bridges(Seq::empty(), socket_dir, entries).len() == 0,
        ({
            let before = planned_bridges(platforms, socket_dir, entries);
            let after = planned_bridges(platforms.push(platform), socket_dir, entries);
            match best_satellite(entries, docker::arch_of(platform)) {
                Some(best) => {
                    &&& after.len() == before.len() + 1
                    &&& after.drop_last() == before
                    &&& after.last().platform == platform
                    &&& after.last().satellite_addr == best.endpoint_addr
                    &&& after.last().socket_path == docker::socket_path(socket_dir, platform)
                },
                None => after == before,
            }
        }),
{
    assert(platforms.push(platform).drop_last() =~= platforms);
    assert(platforms.push(platform).last() == platform);
}

/// What Mission Control prints names every platform with its own socket, in order, between a first
/// line and two last ones; nothing goes to the standard output.
pub proof fn running_names_every_platform(platforms: Seq<Seq<char>>, socket_dir: Seq<u8>)
    ensures
        ({
            let lines = running_text(platforms, socket_dir);
            let n = platforms.len() as int;
            &&& lines.len() == n + 3
            &&& lines[0] == console::err("Mission Control is running."@)
            &&& forall|i: int|
                0 <= i < n ==> lines[i + 1] == console::err(
                    "  "@ + #[trigger] platforms[i] + " → "@ + encoding::shown(
                        docker::socket_path(socket_dir, platforms[i]),
                    ),
                )
            &&& lines[n + 1] == console::err(""@)
            &&& lines[n + 2] == console::err("Waiting for connections... (Ctrl+C to stop)"@)
        }),
{
}

/// The line about a platform that is connected names the platform and the socket.
pub proof fn connections_name_platform_and_socket(platform: Seq<char>, socket: Seq<u8>)
    ensures
        connection_text(platform, socket) == "  "@ + platform + " → "@ + encoding::shown(socket),
{
}

} // verus!
