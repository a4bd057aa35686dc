//! Satellites: the compute nodes that run buildkitd.
//!
//! A Satellite keeps an entry about itself in the Constellation's document, under a key that
//! names its node, and lets in the nodes that it knows from the document.

use vstd::prelude::*;
use vstd::slice::slice_subrange;
use vstd::utf8;

use crate::console;
use crate::console::Line;
use crate::docker;
use crate::encoding;
use crate::keys;
use crate::mission_control;
use crate::path::FsPath;
use crate::text;

verus! {

/// An iroh endpoint address, carried from a Satellite's entry to the connections made to it.
#[verifier::external_type_specification]
#[verifier::external_body]
pub struct ExEndpointAddr(iroh::EndpointAddr);

/// Whether `iroh::PublicKey::from_bytes` accepts the bytes as a public key.
pub uninterp spec fn is_public_key(bytes: Seq<u8>) -> bool;

/// Calls `iroh::PublicKey::from_bytes`. Claimed: whether the bytes are accepted depends on them
/// alone. Which bytes are points of the curve is left unsaid.
#[verifier::external_body]
fn accepts_public_key(bytes: &[u8; 32]) -> (accepted: bool)
    ensures
        accepted == is_public_key(bytes@),
{
    iroh::PublicKey::from_bytes(bytes).is_ok()
}

/// The identity of a node: its public key.
#[derive(Clone, Copy)]
pub struct NodeId {
    bytes: [u8; 32],
}

impl View for NodeId {
    type V = Seq<u8>;

    closed spec fn view(&self) -> Seq<u8> {
        self.bytes@
    }
}

/// The key prefix of the entries about Satellites.
pub const KEY_PREFIX: &'static str = "satellite/";

/// The node that a hexadecimal text names, if it names one.
pub open spec fn names_node(hex_bytes: Seq<u8>, id: Seq<u8>) -> bool {
    id.len() == keys::KEY_LENGTH && is_public_key(id) && encoding::hex(id) == hex_bytes
}

/// The key of the entry about a node.
pub open spec fn entry_key(id: Seq<u8>) -> Seq<char> {
    KEY_PREFIX@ + encoding::ascii_text(encoding::hex(id))
}

/// What follows the prefix in the key of an entry about a Satellite.
pub open spec fn key_suffix(key: Seq<u8>) -> Option<Seq<u8>> {
    let prefix = utf8::encode_utf8(KEY_PREFIX@);
    if prefix.len() <= key.len() && key.take(prefix.len() as int) == prefix {
        Some(key.skip(prefix.len() as int))
    } else {
        None
    }
}

impl NodeId {
    #[verifier::type_invariant]
    spec fn is_key(&self) -> bool {
        is_public_key(self.bytes@)
    }

    /// The node with the given public key, if the bytes are one.
    pub fn from_bytes(bytes: [u8; 32]) -> (res: Option<NodeId>)
        ensures
            match res {
                Some(id) => is_public_key(bytes@) && id@ == bytes@,
                None => !is_public_key(bytes@),
            },
    {
        if accepts_public_key(&bytes) {
            Some(NodeId { bytes })
        } else {
            None
        }
    }

    /// The public key of this node.
    pub fn as_bytes(&self) -> (bytes: &[u8; 32])
        ensures
            bytes@ == self@,
            is_public_key(self@),
    {
        proof {
            use_type_invariant(self);
        }
        &self.bytes
    }
}

/// The node that a hexadecimal text (what follows the prefix in the key of an entry) names.
pub fn parse_node_id_from_hex(hex_bytes: &[u8]) -> (res: Option<NodeId>)
    ensures
        match res {
            Some(id) => names_node(hex_bytes@, id@),
            None => forall|id: Seq<u8>| !#[trigger] names_node(hex_bytes@, id),
        },
{
    if hex_bytes.len() != 64 {
        assert forall|id: Seq<u8>| !#[trigger] names_node(hex_bytes@, id) by {
            assert(encoding::hex(id).len() == 2 * id.len());
        }
        return None;
    }
    match encoding::hex_decode(hex_bytes) {
        Some(bytes) => {
            assert(encoding::hex(bytes@).len() == 2 * bytes@.len());
            assert forall|id: Seq<u8>| #[trigger] names_node(hex_bytes@, id) implies id
                == bytes@ by {
                encoding::hex_is_injective(id, bytes@);
            }
            match keys::key_array(bytes.as_slice()) {
                Some(arr) => NodeId::from_bytes(arr),
                None => None,
            }
        },
        None => None,
    }
}

/// The key of the entry about `node`: `satellite/` and its public key in hexadecimal.
pub fn satellite_key(node: &NodeId) -> (key: String)
    ensures
        key@ == entry_key(node@),
{
    KEY_PREFIX.to_owned().concat(encoding::hex_encode(node.as_bytes()).as_str())
}

/// What follows the prefix in `key`, where it is the key of an entry about a Satellite.
pub fn strip_key_prefix(key: &[u8]) -> (suffix: Option<&[u8]>)
    ensures
        match suffix {
            Some(rest) => key_suffix(key@) == Some(rest@),
            None => key_suffix(key@) is None,
        },
{
    let prefix: &[u8] = KEY_PREFIX.as_bytes();
    if key.len() < prefix.len() {
        return None;
    }
    let mut i: usize = 0;
    while i < prefix.len()
        invariant
            i <= prefix@.len() <= key@.len(),
            prefix@ == utf8::encode_utf8(KEY_PREFIX@),
            forall|j: int| 0 <= j < i ==> prefix@[j] == key@[j],
        decreases prefix@.len() - i,
    {
        if prefix[i] != key[i] {
            assert(key@.take(prefix@.len() as int)[i as int] != prefix@[i as int]);
            return None;
        }
        i = i + 1;
    }
    assert(key@.take(prefix@.len() as int) =~= prefix@);
    assert(key@.skip(prefix@.len() as int) =~= key@.subrange(
        prefix@.len() as int,
        key@.len() as int,
    ));
    Some(slice_subrange(key, prefix.len(), key.len()))
}

/// The key that a Satellite writes its entry under leads the others back to the Satellite.
pub proof fn entry_key_names_its_node(id: Seq<u8>)
    requires
        id.len() == keys::KEY_LENGTH,
        is_public_key(id),
    ensures
        key_suffix(utf8::encode_utf8(entry_key(id))) == Some(encoding::hex(id)),
        names_node(encoding::hex(id), id),
        forall|other: Seq<u8>| #[trigger] names_node(encoding::hex(id), other) ==> other == id,
{
    let digits = encoding::ascii_text(encoding::hex(id));
    reveal_strlit("satellite/");
    assert forall|i: int| 0 <= i < digits.len() implies '\0' <= #[trigger] digits[i] <= '\u{7f}' by {
        assert(digits[i] == encoding::hex(id)[i] as char);
    }
    assert(utf8::is_ascii_chars(KEY_PREFIX@));
    assert(utf8::is_ascii_chars(digits));
    assert(utf8::is_ascii_chars(entry_key(id)));
    utf8::is_ascii_chars_encode_utf8(KEY_PREFIX@);
    utf8::is_ascii_chars_encode_utf8(entry_key(id));
    let key = utf8::encode_utf8(entry_key(id));
    let prefix = utf8::encode_utf8(KEY_PREFIX@);
    assert(key.take(prefix.len() as int) =~= prefix);
    assert(key.skip(prefix.len() as int) =~= encoding::hex(id));
    assert forall|other: Seq<u8>| #[trigger] names_node(encoding::hex(id), other) implies other
        == id by {
        encoding::hex_is_injective(other, id);
    }
}

/// What is claimed of the derived `Clone` of `iroh::EndpointAddr`: a clone is the same address.
pub assume_specification[ <iroh::EndpointAddr as Clone>::clone ](
    addr: &iroh::EndpointAddr,
) -> (res: iroh::EndpointAddr)
    ensures
        res == *addr,
;

/// The entry about a Satellite in the document.
#[derive(Debug, PartialEq, Eq)]
pub struct SatelliteEntry {
    /// The architecture, such as `arm64` or `amd64`.
    pub arch: String,
    /// The status: `idle`, `busy` or `offline`.
    pub status: String,
    /// The address under which the Satellite takes connections.
    pub endpoint_addr: iroh::EndpointAddr,
    /// When the Satellite registered or last gave a sign of life, in seconds since 1970.
    pub registered_at: u64,
}

/// What the entry about a Satellite says.
#[verifier::ext_equal]
pub struct EntryView {
    pub arch: Seq<char>,
    pub status: Seq<char>,
    pub endpoint_addr: iroh::EndpointAddr,
    pub registered_at: u64,
}

impl View for SatelliteEntry {
    type V = EntryView;

    open spec fn view(&self) -> EntryView {
        EntryView {
            arch: self.arch@,
            status: self.status@,
            endpoint_addr: self.endpoint_addr,
            registered_at: self.registered_at,
        }
    }
}

impl Clone for SatelliteEntry {
    fn clone(&self) -> (entry: SatelliteEntry)
        ensures
            entry == *self,
    {
        SatelliteEntry {
            arch: self.arch.clone(),
            status: self.status.clone(),
            endpoint_addr: self.endpoint_addr.clone(),
            registered_at: self.registered_at,
        }
    }
}

/// What a Satellite is doing.
#[derive(Debug, Clone, Copy, PartialEq, Eq, Structural)]
pub enum SatelliteStatus {
    Idle,
    Busy,
    Offline,
}

/// How a status is written in an entry.
pub open spec fn status_text(status: SatelliteStatus) -> Seq<char> {
    match status {
        SatelliteStatus::Idle => "idle"@,
        SatelliteStatus::Busy => "busy"@,
        SatelliteStatus::Offline => "offline"@,
    }
}

impl SatelliteStatus {
    /// How this status is written in an entry.
    pub fn to_string(&self) -> (text: String)
        ensures
            text@ == status_text(*self),
    {
        match self {
            SatelliteStatus::Idle => "idle".to_owned(),
            SatelliteStatus::Busy => "busy".to_owned(),
            SatelliteStatus::Offline => "offline".to_owned(),
        }
    }
}

/// How OrbitBuild calls the architecture that Rust calls `target`.
pub open spec fn arch_name(target: Seq<char>) -> Seq<char> {
    if target == "aarch64"@ || target == "arm64"@ {
        "arm64"@
    } else if target == "x86_64"@ || target == "amd64"@ {
        "amd64"@
    } else {
        target
    }
}

/// How OrbitBuild calls the architecture that Rust calls `target`.
pub fn arch_str<'a>(target: &'a str) -> (arch: &'a str)
    ensures
        arch@ == arch_name(target@),
{
    if text::same_text(target, "aarch64") || text::same_text(target, "arm64") {
        "arm64"
    } else if text::same_text(target, "x86_64") || text::same_text(target, "amd64") {
        "amd64"
    } else {
        target
    }
}

/// The buildkitd socket of a Satellite for which none is chosen.
pub const DEFAULT_BUILDKITD_SOCKET: &'static str = "/run/buildkit/buildkitd.sock";

/// How many seconds pass between two signs of life of a Satellite.
pub const HEARTBEAT_INTERVAL_SECS: u64 = 30;

/// The occasions on which a Satellite writes its entry.
#[derive(Debug, Clone, Copy, PartialEq, Eq, Structural)]
pub enum Occasion {
    /// The Satellite has joined.
    Joined,
    /// The Satellite gives a sign of life.
    Heartbeat,
    /// The Satellite is about to stop.
    Shutdown,
}

/// The status that a Satellite reports on an occasion.
pub open spec fn reported_status(occasion: Occasion) -> SatelliteStatus {
    match occasion {
        Occasion::Joined => SatelliteStatus::Idle,
        Occasion::Heartbeat => SatelliteStatus::Idle,
        Occasion::Shutdown => SatelliteStatus::Offline,
    }
}

/// The key of all zeroes.
pub open spec fn no_key() -> Seq<u8> {
    Seq::new(32, |i: int| 0u8)
}

/// What `iroh::EndpointAddr::new` returns for the public key `key`: an address that names the
/// node and no way to reach it.
pub uninterp spec fn bare_address(key: Seq<u8>) -> iroh::EndpointAddr;

/// Calls `iroh::EndpointAddr::new` on what `iroh::PublicKey::from_bytes` makes of the key of all
/// zeroes, which is a point of the curve. Claimed: the address depends on the key alone.
#[verifier::external_body]
fn address_of(key: &[u8; 32]) -> (addr: iroh::EndpointAddr)
    requires
        key@ == no_key(),
    ensures
        addr == bare_address(key@),
{
    iroh::EndpointAddr::new(iroh::PublicKey::from_bytes(key).unwrap())
}

/// The address that a Satellite with the address `own` reports on an occasion. One that stops
/// cannot be reached any more, and reports an address that leads nowhere.
pub open spec fn reported_address(
    occasion: Occasion,
    own: iroh::EndpointAddr,
) -> iroh::EndpointAddr {
    match occasion {
        Occasion::Joined => own,
        Occasion::Heartbeat => own,
        Occasion::Shutdown => bare_address(no_key()),
    }
}

/// The entry that a Satellite writes on an occasion.
pub fn report(
    occasion: Occasion,
    arch: &str,
    endpoint_addr: iroh::EndpointAddr,
    now_secs: u64,
) -> (entry: SatelliteEntry)
    ensures
        entry@ == (EntryView {
            arch: arch@,
            status: status_text(reported_status(occasion)),
            endpoint_addr: reported_address(occasion, endpoint_addr),
            registered_at: now_secs,
        }),
        entry.status@ == "offline"@ <==> occasion == Occasion::Shutdown,
        entry.status@ == "idle"@ <==> occasion != Occasion::Shutdown,
        occasion != Occasion::Shutdown ==> entry.endpoint_addr == endpoint_addr,
{
    proof {
        words_for_statuses(reported_status(occasion));
    }
    let status: SatelliteStatus = match occasion {
        Occasion::Joined => SatelliteStatus::Idle,
        Occasion::Heartbeat => SatelliteStatus::Idle,
        Occasion::Shutdown => SatelliteStatus::Offline,
    };
    let reported: iroh::EndpointAddr = match occasion {
        Occasion::Joined => endpoint_addr,
        Occasion::Heartbeat => endpoint_addr,
        Occasion::Shutdown => {
            let key: [u8; 32] = [0u8;32];
            assert(key@ =~= no_key());
            address_of(&key)
        },
    };
    SatelliteEntry {
        arch: arch.to_owned(),
        status: status.to_string(),
        endpoint_addr: reported,
        registered_at: now_secs,
    }
}

/// The time in seconds since 1970, given the time that has passed since then. A clock that is
/// set to an earlier time counts as 1970.
pub fn chrono_now_secs(since_epoch: Option<u64>) -> (secs: u64)
    ensures
        secs == (match since_epoch {
            Some(passed) => passed,
            None => 0,
        }),
{
    match since_epoch {
        Some(passed) => passed,
        None => 0,
    }
}

/// The buildkitd socket of a Satellite: the chosen one, or the default.
pub fn buildkitd_socket(chosen: Option<FsPath>) -> (socket: FsPath)
    ensures
        socket@ == match chosen {
            Some(path) => path@,
            None => utf8::encode_utf8(DEFAULT_BUILDKITD_SOCKET@),
        },
{
    match chosen {
        Some(path) => path,
        None => FsPath::from_text(DEFAULT_BUILDKITD_SOCKET),
    }
}

/// What a Satellite prints when it has joined.
pub open spec fn joined_text(
    id: Seq<u8>,
    arch: Seq<char>,
    socket: Seq<u8>,
) -> Seq<console::LineView> {
    seq![
        console::err("Satellite joined the Constellation."@),
        console::err(
            "  Node ID: PublicKey("@ + encoding::ascii_text(encoding::hex(id)) + ")"@,
        ),
        console::err("  Arch: "@ + arch),
        console::err("  buildkitd socket: "@ + encoding::shown(socket)),
        console::err(""@),
        console::err("Satellite is listening... (Ctrl+C to stop)"@),
    ]
}

/// What a Satellite prints when it has joined.
pub fn joined_lines(node: &NodeId, arch: &str, socket: &FsPath) -> (lines: Vec<Line>)
    ensures
        console::printed(lines@) == joined_text(node@, arch@, socket@),
{
    let lines: Vec<Line> = vec![
        Line::Stderr("Satellite joined the Constellation.".to_owned()),
        Line::Stderr(
            "  Node ID: PublicKey(".to_owned().concat(
                encoding::hex_encode(node.as_bytes()).as_str(),
            ).concat(")"),
        ),
        Line::Stderr("  Arch: ".to_owned().concat(arch)),
        Line::Stderr("  buildkitd socket: ".to_owned().concat(socket.display().as_str())),
        Line::Stderr("".to_owned()),
        Line::Stderr("Satellite is listening... (Ctrl+C to stop)".to_owned()),
    ];
    assert(console::printed(lines@) =~= joined_text(node@, arch@, socket@));
    lines
}

/// Parses the list of platforms that a Satellite can build besides its own.
pub fn parse_satellite_platforms(platforms_str: &str) -> (res: Result<
    Vec<String>,
    mission_control::PlatformError,
>)
    ensures
        mission_control::parses_to(platforms_str@, res),
{
    mission_control::parse_platforms(platforms_str)
}

/// The platforms that a Satellite of the architecture `arch` can build: its own, then those of
/// `extra` that have not been named before.
pub open spec fn buildable(arch: Seq<char>, extra: Seq<Seq<char>>) -> Seq<Seq<char>>
    decreases extra.len(),
{
    if extra.len() == 0 {
        seq!["linux/"@ + arch]
    } else {
        let before = buildable(arch, extra.drop_last());
        if before.contains(extra.last()) {
            before
        } else {
            before.push(extra.last())
        }
    }
}

/// The platforms that a Satellite of the architecture `arch` can build, if it can build those
/// of `extra` besides its own.
pub fn satellite_platforms(arch: &str, extra: &Vec<String>) -> (platforms: Vec<String>)
    ensures
        text::texts(platforms@) == buildable(arch@, text::texts(extra@)),
{
    let mut platforms: Vec<String> = vec!["linux/".to_owned().concat(arch)];
    let mut i: usize = 0;
    assert(text::texts(platforms@) =~= seq!["linux/"@ + arch@]);
    assert(text::texts(extra@).take(0) =~= Seq::<Seq<char>>::empty());
    while i < extra.len()
        invariant
            i <= extra@.len(),
            text::texts(platforms@) == buildable(arch@, text::texts(extra@).take(i as int)),
        decreases extra@.len() - i,
    {
        let ghost next = text::texts(extra@).take(i + 1);
        assert(next.drop_last() =~= text::texts(extra@).take(i as int));
        assert(next.last() == extra@[i as int]@);
        if !text::contains_text(&platforms, extra[i].as_str()) {
            let platform: String = extra[i].clone();
            assert(text::texts(platforms@.push(platform)) =~= text::texts(platforms@).push(
                platform@,
            ));
            platforms.push(platform);
        }
        i = i + 1;
    }
    assert(text::texts(extra@).take(extra@.len() as int) =~= text::texts(extra@));
    platforms
}

/// A Satellite can always build its own platform; it can build that, the further ones, and
/// nothing else; and no platform is named twice.
pub proof fn native_platform_is_always_buildable(arch: Seq<char>, extra: Seq<Seq<char>>)
    ensures
        buildable(arch, extra).len() > 0,
        buildable(arch, extra)[0] == "linux/"@ + arch,
        buildable(arch, extra).no_duplicates(),
        forall|p: Seq<char>| #[trigger]
            buildable(arch, extra).contains(p) <==> p == "linux/"@ + arch || extra.contains(p),
    decreases extra.len(),
{
    let all = buildable(arch, extra);
    if extra.len() == 0 {
        assert forall|p: Seq<char>| #[trigger] all.contains(p) <==> p == "linux/"@ + arch
            || extra.contains(p) by {
            assert(all[0] == "linux/"@ + arch);
        }
    } else {
        let shorter = extra.drop_last();
        let before = buildable(arch, shorter);
        native_platform_is_always_buildable(arch, shorter);
        assert forall|p: Seq<char>| #[trigger] all.contains(p) <==> p == "linux/"@ + arch
            || extra.contains(p) by {
            assert(all.contains(p) <==> before.contains(p) || p == extra.last()) by {
                if !before.contains(extra.last()) {
                    if before.contains(p) {
                        let k = choose|k: int| 0 <= k < before.len() && before[k] == p;
                        assert(all[k] == p);
                    }
                    assert(all[before.len() as int] == extra.last());
                    if all.contains(p) {
                        let k = choose|k: int| 0 <= k < all.len() && all[k] == p;
                        if k < before.len() {
                            assert(before[k] == p);
                        }
                    }
                }
            }
            assert(extra.contains(p) <==> shorter.contains(p) || p == extra.last()) by {
                if shorter.contains(p) {
                    let k = choose|k: int| 0 <= k < shorter.len() && shorter[k] == p;
                    assert(extra[k] == p);
                }
                assert(extra[extra.len() - 1] == extra.last());
                if extra.contains(p) {
                    let k = choose|k: int| 0 <= k < extra.len() && extra[k] == p;
                    if k < shorter.len() {
                        assert(shorter[k] == p);
                    }
                }
            }
        }
        assert forall|i: int, j: int| 0 <= i < all.len() && 0 <= j < all.len() && i
            != j implies all[i] != all[j] by {
            if !before.contains(extra.last()) {
                if i < before.len() {
                    assert(before.contains(before[i]));
                }
                if j < before.len() {
                    assert(before.contains(before[j]));
                }
            }
        }
    }
}

/// What a Satellite writes to the document: the entry about itself, and the platforms that it can
/// build besides its own.
#[derive(Debug, PartialEq, Eq)]
pub struct Registration {
    pub entry: SatelliteEntry,
    pub extra_platforms: Vec<String>,
}

impl Registration {
    /// The platforms that are advertised: the Satellite's own, and the others.
    pub open spec fn platforms(&self) -> Seq<Seq<char>> {
        seq!["linux/"@ + self.entry.arch@] + text::texts(self.extra_platforms@)
    }

    /// What the Satellite offers: its entry, and for each further platform the same entry with
    /// the architecture of that platform.
    pub open spec fn offered(&self) -> Seq<EntryView> {
        seq![self.entry@] + text::texts(self.extra_platforms@).map_values(
            |p: Seq<char>| EntryView { arch: docker::arch_of(p), ..self.entry@ },
        )
    }

    /// What the Satellite offers, one entry for each architecture that it advertises.
    pub fn offers(&self) -> (entries: Vec<SatelliteEntry>)
        ensures
            entries@.map_values(|e: SatelliteEntry| e@) == self.offered(),
    {
        let mut entries: Vec<SatelliteEntry> = vec![self.entry.clone()];
        let mut i: usize = 0;
        while i < self.extra_platforms.len()
            invariant
                i <= self.extra_platforms@.len(),
                entries@.len() == i + 1,
                entries@[0]@ == self.entry@,
                forall|j: int|
                    0 <= j < i ==> (#[trigger] entries@[j + 1])@ == (EntryView {
                        arch: docker::arch_of(self.extra_platforms@[j]@),
                        ..self.entry@
                    }),
            decreases self.extra_platforms@.len() - i,
        {
            let arch: &str = text::after_last_of(self.extra_platforms[i].as_str(), '/');
            entries.push(
                SatelliteEntry {
                    arch: arch.to_owned(),
                    status: self.entry.status.clone(),
                    endpoint_addr: self.entry.endpoint_addr.clone(),
                    registered_at: self.entry.registered_at,
                },
            );
            i = i + 1;
        }
        proof {
            let got = entries@.map_values(|e: SatelliteEntry| e@);
            let want = self.offered();
            assert forall|k: int| 0 <= k < want.len() implies got[k] == want[k] by {
                if k > 0 {
                    assert(entries@[(k - 1) + 1]@ == want[k]);
                }
            }
            assert(got =~= want);
        }
        entries
    }
}

/// A Satellite that has joined: what it writes to the document, and where.
pub struct SatelliteSession {
    node: NodeId,
    arch: String,
    extra_platforms: Vec<String>,
}

/// What a Satellite writes to the document: a registration, under a key.
pub struct DocWrite {
    pub key: String,
    pub value: Registration,
}

impl SatelliteSession {
    /// The node of the Satellite.
    pub closed spec fn id(&self) -> Seq<u8> {
        self.node@
    }

    /// The architecture of the Satellite.
    pub closed spec fn arch(&self) -> Seq<char> {
        self.arch@
    }

    /// The platforms that the Satellite can build.
    pub closed spec fn platforms(&self) -> Seq<Seq<char>> {
        seq!["linux/"@ + self.arch@] + text::texts(self.extra_platforms@)
    }

    /// A Satellite of the architecture `arch` that can build the platforms `extra` besides its
    /// own.
    pub fn new(node: NodeId, arch: &str, extra: &Vec<String>) -> (session: SatelliteSession)
        ensures
            session.id() == node@,
            session.arch() == arch@,
            session.platforms() == buildable(arch@, text::texts(extra@)),
    {
        let platforms: Vec<String> = satellite_platforms(arch, extra);
        let ghost names = text::texts(platforms@);
        proof {
            native_platform_is_always_buildable(arch@, text::texts(extra@));
        }
        let mut extra_platforms: Vec<String> = Vec::new();
        let mut i: usize = 1;
        while i < platforms.len()
            invariant
                1 <= i <= platforms@.len(),
                extra_platforms@.len() == i - 1,
                forall|j: int|
                    0 <= j < i - 1 ==> (#[trigger] extra_platforms@[j])@ == platforms@[j + 1]@,
            decreases platforms@.len() - i,
        {
            extra_platforms.push(platforms[i].clone());
            i = i + 1;
        }
        let session = SatelliteSession { node, arch: arch.to_owned(), extra_platforms };
        assert(session.platforms() =~= names);
        session
    }

    /// What the Satellite writes on an occasion. Whatever the occasion, it writes under the one
    /// key that names its node, and advertises the same architecture and platforms.
    pub fn write(
        &self,
        occasion: Occasion,
        endpoint_addr: iroh::EndpointAddr,
        now_secs: u64,
    ) -> (write: DocWrite)
        ensures
            write.key@ == entry_key(self.id()),
            write.value.entry@ == (EntryView {
                arch: self.arch(),
                status: status_text(reported_status(occasion)),
                endpoint_addr: reported_address(occasion, endpoint_addr),
                registered_at: now_secs,
            }),
            write.value.platforms() == self.platforms(),
            write.value.entry.status@ == "offline"@ <==> occasion == Occasion::Shutdown,
            write.value.entry.status@ == "idle"@ <==> occasion != Occasion::Shutdown,
            occasion != Occasion::Shutdown ==> write.value.entry.endpoint_addr == endpoint_addr,
    {
        let entry: SatelliteEntry = report(occasion, self.arch.as_str(), endpoint_addr, now_secs);
        let value = Registration { entry, extra_platforms: text::copy_texts(&self.extra_platforms) };
        DocWrite { key: satellite_key(&self.node), value }
    }
}

/// A key is about a Satellite exactly if it begins with `satellite/`; and what follows names the
/// node, as its thirty-two bytes in hexadecimal.
pub proof fn keys_about_satellites(key: Seq<u8>, suffix: Seq<u8>, id: Seq<u8>)
    ensures
        key_suffix(key) == Some(suffix) <==> key == utf8::encode_utf8("satellite/"@) + suffix,
        entry_key(id) == "satellite/"@ + encoding::ascii_text(encoding::hex(id)),
        names_node(suffix, id) <==> id.len() == 32 && is_public_key(id) && encoding::hex(id)
            == suffix,
{
    let prefix = utf8::encode_utf8("satellite/"@);
    if key_suffix(key) == Some(suffix) {
        assert(key =~= prefix + suffix);
    }
    if key == prefix + suffix {
        assert(key.take(prefix.len() as int) =~= prefix);
        assert(key.skip(prefix.len() as int) =~= suffix);
    }
}

/// The words for the three statuses.
pub proof fn words_for_statuses(status: SatelliteStatus)
    ensures
        status is Idle <==> status_text(status) == "idle"@,
        status is Busy <==> status_text(status) == "busy"@,
        status is Offline <==> status_text(status) == "offline"@,
{
    reveal_strlit("idle");
    reveal_strlit("busy");
    reveal_strlit("offline");
    assert("idle"@[0] != "busy"@[0]);
    assert("idle"@[0] != "offline"@[0]);
    assert("busy"@[0] != "offline"@[0]);
}

/// The two architectures that have a name of OrbitBuild's own are called so under each of their
/// names; every other one keeps its name.
pub proof fn names_of_architectures(target: Seq<char>)
    ensures
        arch_name("aarch64"@) == "arm64"@ && arch_name("arm64"@) == "arm64"@,
        arch_name("x86_64"@) == "amd64"@ && arch_name("amd64"@) == "amd64"@,
        target != "aarch64"@ && target != "x86_64"@ ==> arch_name(target) == target,
        arch_name(arch_name(target)) == arch_name(target),
{
    reveal_strlit("aarch64");
    reveal_strlit("arm64");
    reveal_strlit("x86_64");
    reveal_strlit("amd64");
    assert("aarch64"@.len() == 7 && "x86_64"@.len() == 6);
    assert("arm64"@[1] != "amd64"@[1]);
}

/// What a Satellite reports: `idle`, together with its own address, on every occasion but the
/// last; and `offline`, together with an address that leads nowhere, when it stops.
pub proof fn idle_reports_lead_to_the_satellite(
    occasion: Occasion,
    own: iroh::EndpointAddr,
    entry: EntryView,
)
    requires
        entry.status == status_text(reported_status(occasion)),
        entry.endpoint_addr == reported_address(occasion, own),
    ensures
        entry.status == "idle"@ || entry.status == "offline"@,
        entry.status == "offline"@ <==> occasion == Occasion::Shutdown,
        entry.status == "idle"@ ==> entry.endpoint_addr == own,
        entry.status == "offline"@ ==> entry.endpoint_addr == bare_address(
            Seq::new(32, |i: int| 0u8),
        ),
{
    words_for_statuses(reported_status(occasion));
    assert(no_key() =~= Seq::new(32, |i: int| 0u8));
}

/// The platforms that a Satellite can build begin with its own, and naming more of them only adds
/// to the end.
pub proof fn further_platforms_come_last(
    arch: Seq<char>,
    extra: Seq<Seq<char>>,
    more: Seq<Seq<char>>,
)
    ensures
        buildable(arch, Seq::empty()) == seq!["linux/"@ + arch],
        buildable(arch, extra).len() <= buildable(arch, extra + more).len(),
        buildable(arch, extra + more).take(buildable(arch, extra).len() as int) == buildable(
            arch,
            extra,
        ),
    decreases more.len(),
{
    let some = buildable(arch, extra);
    if more.len() == 0 {
        assert(extra + more =~= extra);
        assert(some.take(some.len() as int) =~= some);
    } else {
        let shorter = more.drop_last();
        further_platforms_come_last(arch, extra, shorter);
        assert((extra + more).drop_last() =~= extra + shorter);
        assert(buildable(arch, extra + more).take(some.len() as int) =~= buildable(
            arch,
            extra + shorter,
        ).take(some.len() as int));
    }
}

/// A Satellite offers as many entries as it advertises platforms: its own, and for each further
/// platform one that differs from its own in nothing but the architecture, which is that of the
/// platform.
pub proof fn one_offer_for_each_platform(value: Registration, k: int)
    requires
        0 <= k < value.extra_platforms@.len(),
    ensures
        value.offered().len() == value.extra_platforms@.len() + 1,
        value.platforms().len() == value.extra_platforms@.len() + 1,
        value.offered()[0] == value.entry@,
        value.platforms()[0] == "linux/"@ + value.entry.arch@,
        value.platforms()[k + 1] == value.extra_platforms@[k]@,
        value.offered()[k + 1].arch == docker::arch_of(value.extra_platforms@[k]@),
        value.offered()[k + 1].status == value.entry.status@,
        value.offered()[k + 1].endpoint_addr == value.entry.endpoint_addr,
        value.offered()[k + 1].registered_at == value.entry.registered_at,
{
}

/// A Satellite that advertises no further platforms offers its own entry and nothing else.
pub proof fn one_offer_without_further_platforms(value: Registration)
    requires
        value.extra_platforms@.len() == 0,
    ensures
        value.offered() == seq![value.entry@],
        value.platforms() == seq!["linux/"@ + value.entry.arch@],
{
}

/// What a Satellite prints on joining says which node it is, of which architecture, and which
/// socket it leads to; nothing goes to the standard output.
pub proof fn joining_names_node_architecture_and_socket(
    id: Seq<u8>,
    arch: Seq<char>,
    socket: Seq<u8>,
)
    ensures
        joined_text(id, arch, socket).len() == 6,
        forall|i: int|
            0 <= i < 6 ==> !(#[trigger] joined_text(id, arch, socket)[i]).to_stdout,
        joined_text(id, arch, socket)[0].text == "Satellite joined the Constellation."@,
        joined_text(id, arch, socket)[1].text == "  Node ID: PublicKey("@ + encoding::ascii_text(
            encoding::hex(id),
        ) + ")"@,
        joined_text(id, arch, socket)[2].text == "  Arch: "@ + arch,
        joined_text(id, arch, socket)[3].text == "  buildkitd socket: "@ + encoding::shown(socket),
        joined_text(id, arch, socket)[4].text == ""@,
        joined_text(id, arch, socket)[5].text == "Satellite is listening... (Ctrl+C to stop)"@,
{
}

/// How often a Satellite gives a sign of life, and which socket its buildkitd listens on where none
/// is chosen.
pub proof fn defaults_of_a_satellite()
    ensures
        HEARTBEAT_INTERVAL_SECS == 30,
        DEFAULT_BUILDKITD_SOCKET@ == "/run/buildkit/buildkitd.sock"@,
{
}

} // verus!
