//! What discovery makes of the Cast devices announced over mDNS: their
//! capabilities, the address to reach each one on, and when a re-announced
//! device has actually changed.

use vstd::prelude::*;

use crate::text::{chars_of, first_match, parse_small_int, spec_parse_int};

verus! {

/// Bit 0 of the Cast `ca` TXT capability mask (`VIDEO_OUT`). Devices without
/// it - Chromecast Audio, speakers, cast groups - can only receive audio.
pub const CA_VIDEO_OUT: u32 = 1;

/// The capability mask of a `ca` TXT value: the value when it parses as a
/// `u32`, else video-capable.
pub open spec fn spec_parse_capabilities(ca: Option<Seq<char>>) -> u32 {
    match ca {
        Some(text) => match spec_parse_int(text, false) {
            Some(v) => if 0 <= v <= u32::MAX {
                v as u32
            } else {
                CA_VIDEO_OUT
            },
            None => CA_VIDEO_OUT,
        },
        None => CA_VIDEO_OUT,
    }
}

/// Parses the `ca` (capabilities) TXT value. Missing or unparseable values
/// default to video-capable so unknown devices are never hidden or blocked.
pub fn parse_capabilities(ca: Option<&str>) -> (r: u32)
    ensures
        r == spec_parse_capabilities(
            match ca {
                Some(s) => Some(s@),
                None => None,
            },
        ),
{
    match ca {
        Some(text) => {
            let chars = chars_of(text);
            match parse_small_int(chars.as_slice(), false) {
                Some(v) => {
                    proof {
                        crate::text::lemma_unsigned_parse_nonneg(text@);
                    }
                    v as u32
                },
                None => CA_VIDEO_OUT,
            }
        },
        None => CA_VIDEO_OUT,
    }
}

/// An IP address: IPv4 or IPv6, as its big-endian number.
#[derive(Clone, Copy, PartialEq, Eq, Structural, Debug)]
pub enum IpAddress {
    V4(u32),
    V6(u128),
}

impl IpAddress {
    pub fn is_ipv4(&self) -> (r: bool)
        ensures
            r == (*self is V4),
    {
        match self {
            IpAddress::V4(_) => true,
            IpAddress::V6(_) => false,
        }
    }
}

/// A discovered Cast device.
#[derive(Clone, PartialEq, Eq, Debug)]
pub struct Device {
    /// mDNS fullname; opaque, stable identifier used over D-Bus.
    pub id: String,
    /// Friendly name from the TXT record ("fn"), e.g. "Living Room TV".
    pub name: String,
    pub addr: IpAddress,
    pub port: u16,
    /// Effective capability bitmask from the `ca` TXT key (see
    /// [`CA_VIDEO_OUT`]); defaults to video-capable when absent or malformed.
    pub ca: u32,
}

impl Device {
    /// Whether the device can show video.
    pub fn has_video(&self) -> (r: bool)
        ensures
            r == (self.ca & CA_VIDEO_OUT != 0),
    {
        self.ca & CA_VIDEO_OUT != 0
    }
}

/// The first index in `[from, n)` at which `p` holds.
pub open spec fn first_where(n: int, p: spec_fn(int) -> bool, from: int) -> Option<int>
    decreases n - from,
{
    if from < 0 || from >= n {
        None
    } else if p(from) {
        Some(from)
    } else {
        first_where(n, p, from + 1)
    }
}

proof fn lemma_first_where(n: int, p: spec_fn(int) -> bool, from: int)
    ensures
        first_where(n, p, from) matches Some(i) ==> from <= i < n && p(i),
    decreases n - from,
{
    if 0 <= from < n && !p(from) {
        lemma_first_where(n, p, from + 1);
    }
}

/// The address to reach a device on: the first routable IPv4 address, else
/// the first routable one, else the first IPv4 one, else the first one.
/// `routable[i]` is whether the host has a route to `addresses[i]`.
pub open spec fn spec_pick_address(addresses: Seq<IpAddress>, routable: Seq<bool>) -> Option<
    IpAddress,
> {
    let n = addresses.len() as int;
    match first_where(n, |i: int| addresses[i] is V4 && routable[i], 0) {
        Some(i) => Some(addresses[i]),
        None => match first_where(n, |i: int| routable[i], 0) {
            Some(i) => Some(addresses[i]),
            None => match first_where(n, |i: int| addresses[i] is V4, 0) {
                Some(i) => Some(addresses[i]),
                None => if n > 0 {
                    Some(addresses[0])
                } else {
                    None
                },
            },
        },
    }
}

fn first_routable(addresses: &[IpAddress], routable: &[bool], ipv4_only: bool) -> (r: Option<
    usize,
>)
    requires
        addresses@.len() == routable@.len(),
    ensures
        match (if ipv4_only {
            first_where(
                addresses@.len() as int,
                |i: int| addresses@[i] is V4 && routable@[i],
                0,
            )
        } else {
            first_where(addresses@.len() as int, |i: int| routable@[i], 0)
        }) {
            Some(i) => r == Some(i as usize),
            None => r is None,
        },
{
    let ghost p = if ipv4_only {
        |i: int| addresses@[i] is V4 && routable@[i]
    } else {
        |i: int| routable@[i]
    };
    let mut i: usize = 0;
    while i < addresses.len()
        invariant
            i <= addresses@.len(),
            addresses@.len() == routable@.len(),
            p == (if ipv4_only {
                |i: int| addresses@[i] is V4 && routable@[i]
            } else {
                |i: int| routable@[i]
            }),
            first_where(addresses@.len() as int, p, 0) == first_where(
                addresses@.len() as int,
                p,
                i as int,
            ),
        decreases addresses@.len() - i,
    {
        if routable[i] && (!ipv4_only || addresses[i].is_ipv4()) {
            assert(p(i as int));
            return Some(i);
        }
        assert(!p(i as int));
        i += 1;
    }
    None
}

/// Picks the address to reach a device on. Reachability comes first - a
/// device's IPv6 record is useless on an IPv4-only network - then family, then
/// whatever was announced, so a device still shows up if the probe can't help.
/// `routable[i]` is whether the host has a route to `addresses[i]`.
pub fn pick_address(addresses: &[IpAddress], routable: &[bool]) -> (r: Option<IpAddress>)
    requires
        addresses@.len() == routable@.len(),
    ensures
        r == spec_pick_address(addresses@, routable@),
{
    let ghost n = addresses@.len() as int;
    let ghost both = |i: int| addresses@[i] is V4 && routable@[i];
    let ghost reachable = |i: int| routable@[i];
    let ghost p = |i: int| addresses@[i] is V4;
    proof {
        lemma_first_where(n, both, 0);
        lemma_first_where(n, reachable, 0);
        lemma_first_where(n, p, 0);
    }
    match first_routable(addresses, routable, true) {
        Some(i) => return Some(addresses[i]),
        None => {},
    }
    match first_routable(addresses, routable, false) {
        Some(i) => return Some(addresses[i]),
        None => {},
    }
    let mut i: usize = 0;
    while i < addresses.len()
        invariant
            i <= addresses@.len(),
            n == addresses@.len(),
            p == (|i: int| addresses@[i] is V4),
            both == (|i: int| addresses@[i] is V4 && routable@[i]),
            reachable == (|i: int| routable@[i]),
            first_where(n, both, 0) is None,
            first_where(n, reachable, 0) is None,
            first_where(addresses@.len() as int, p, 0) == first_where(
                addresses@.len() as int,
                p,
                i as int,
            ),
        decreases addresses@.len() - i,
    {
        if addresses[i].is_ipv4() {
            return Some(addresses[i]);
        }
        i += 1;
    }
    if addresses.len() > 0 {
        Some(addresses[0])
    } else {
        None
    }
}

/// `s` with later repeats of an element dropped.
pub open spec fn first_occurrences(s: Seq<IpAddress>) -> Seq<IpAddress>
    decreases s.len(),
{
    if s.len() == 0 {
        seq![]
    } else {
        let rest = first_occurrences(s.drop_last());
        if rest.contains(s.last()) {
            rest
        } else {
            rest.push(s.last())
        }
    }
}

/// The elements of `s` that are not in `removed`, in order.
pub open spec fn without(s: Seq<IpAddress>, removed: Seq<IpAddress>) -> Seq<IpAddress>
    decreases s.len(),
{
    if s.len() == 0 {
        seq![]
    } else {
        let rest = without(s.drop_last(), removed);
        if removed.contains(s.last()) {
            rest
        } else {
            rest.push(s.last())
        }
    }
}

/// Every address a device has announced, freshest first: the addresses of
/// the latest announcement (each once, in announced order) ahead of the
/// earlier ones it did not repeat.
pub open spec fn spec_merge_announced(known: Seq<IpAddress>, fresh: Seq<IpAddress>) -> Seq<
    IpAddress,
> {
    first_occurrences(fresh) + without(known, fresh)
}

fn vec_contains(v: &Vec<IpAddress>, a: IpAddress) -> (r: bool)
    ensures
        r == v@.contains(a),
{
    let mut i: usize = 0;
    while i < v.len()
        invariant
            i <= v@.len(),
            forall|j: int| 0 <= j < i ==> v@[j] != a,
        decreases v@.len() - i,
    {
        if v[i] == a {
            return true;
        }
        i += 1;
    }
    false
}

/// Folds one announcement into the addresses known for a device: one
/// resolve can carry only part of the record (after a resume, often just
/// the AAAA), so earlier addresses are kept behind the fresh ones.
pub fn merge_announced(known: &Vec<IpAddress>, fresh: &Vec<IpAddress>) -> (r: Vec<IpAddress>)
    ensures
        r@ == spec_merge_announced(known@, fresh@),
{
    let mut merged: Vec<IpAddress> = Vec::new();
    let mut i: usize = 0;
    while i < fresh.len()
        invariant
            i <= fresh@.len(),
            merged@ == first_occurrences(fresh@.take(i as int)),
        decreases fresh@.len() - i,
    {
        let a = fresh[i];
        assert(fresh@.take(i + 1).drop_last() == fresh@.take(i as int));
        if !vec_contains(&merged, a) {
            merged.push(a);
        }
        i += 1;
    }
    assert(fresh@.take(fresh@.len() as int) == fresh@);
    let ghost head = merged@;
    let mut j: usize = 0;
    while j < known.len()
        invariant
            j <= known@.len(),
            head == first_occurrences(fresh@),
            merged@ == head + without(known@.take(j as int), fresh@),
        decreases known@.len() - j,
    {
        let a = known[j];
        assert(known@.take(j + 1).drop_last() == known@.take(j as int));
        if !vec_contains(fresh, a) {
            merged.push(a);
        }
        j += 1;
    }
    assert(known@.take(known@.len() as int) == known@);
    merged
}

/// The address to keep for a device: a working address is never downgraded
/// to an unreachable one. `previous` is the address on record with whether
/// it is routable; `picked` is the new choice with whether it is routable.
pub open spec fn spec_settled_address(
    previous: Option<(IpAddress, bool)>,
    picked: IpAddress,
    picked_routable: bool,
) -> IpAddress {
    match previous {
        Some((old, old_routable)) => if old != picked && !picked_routable && old_routable {
            old
        } else {
            picked
        },
        None => picked,
    }
}

/// The address to keep for a device.
pub fn settled_address(
    previous: Option<(IpAddress, bool)>,
    picked: IpAddress,
    picked_routable: bool,
) -> (r: IpAddress)
    ensures
        r == spec_settled_address(previous, picked, picked_routable),
{
    match previous {
        Some((old, old_routable)) => if old != picked && !picked_routable && old_routable {
            old
        } else {
            picked
        },
        None => picked,
    }
}

/// The name to show for a device: its TXT `fn` value, else its mDNS
/// fullname up to `._googlecast`.
pub open spec fn spec_device_name(friendly: Option<Seq<char>>, fullname: Seq<char>) -> Seq<char> {
    match friendly {
        Some(name) => name,
        None => match crate::text::first_match(fullname, "._googlecast"@) {
            Some(i) => fullname.take(i),
            None => fullname,
        },
    }
}

/// The name to show for a device.
pub fn device_name(friendly: Option<&str>, fullname: &str) -> (r: String)
    ensures
        friendly matches Some(name) ==> r@ == spec_device_name(Some(name@), fullname@),
        friendly is None ==> r@ == spec_device_name(None, fullname@),
{
    match friendly {
        Some(name) => {
            let mut s = String::new();
            crate::text::push_str(&mut s, name);
            assert(s@ =~= name@);
            s
        },
        None => {
            let chars = chars_of(fullname);
            let suffix = chars_of("._googlecast");
            let found = crate::text::chars_find_first(chars.as_slice(), suffix.as_slice());
            let end: usize = match found {
                Some(i) => i,
                None => chars.len(),
            };
            assert(end <= chars@.len());
            assert(chars@.take(chars@.len() as int) == chars@);
            let mut s = String::new();
            let head = crate::text::slice_chars(chars.as_slice(), 0, end);
            crate::text::push_chars(&mut s, head.as_slice());
            assert(head@ == chars@.take(end as int));
            assert(s@ =~= head@);
            proof {
                match first_match(fullname@, "._googlecast"@) {
                    Some(i) => {
                        assert(end == i);
                    },
                    None => {
                        assert(end == chars@.len());
                    },
                }
            }
            s
        },
    }
}

/// Whether a resolved device differs from the one on record (a device that
/// re-announces itself unchanged is not news).
pub open spec fn spec_device_changed(
    existing: Option<(Seq<char>, IpAddress, u16, u32)>,
    name: Seq<char>,
    addr: IpAddress,
    port: u16,
    ca: u32,
) -> bool {
    match existing {
        Some((old_name, old_addr, old_port, old_ca)) => !(old_name == name && old_addr == addr
            && old_port == port && old_ca == ca),
        None => true,
    }
}

/// Whether a resolved device differs from the one on record.
pub fn device_changed(existing: Option<&Device>, name: &str, addr: IpAddress, port: u16, ca: u32) -> (r:
    bool)
    ensures
        r == spec_device_changed(
            match existing {
                Some(d) => Some((d.name@, d.addr, d.port, d.ca)),
                None => None,
            },
            name@,
            addr,
            port,
            ca,
        ),
{
    match existing {
        Some(d) => !(crate::text::str_equal(d.name.as_str(), name) && d.addr == addr && d.port
            == port && d.ca == ca),
        None => true,
    }
}


proof fn lemma_first_where_finds(n: int, p: spec_fn(int) -> bool, from: int, k: int)
    requires
        0 <= from <= k < n,
        p(k),
    ensures
        first_where(n, p, from) is Some,
    decreases k - from,
{
    if !p(from) {
        lemma_first_where_finds(n, p, from + 1, k);
    }
}

/// Reachability comes first: the address picked is one of those announced
/// (and there is one whenever any was announced); it is reachable whenever
/// any announced address is, and IPv4 whenever a reachable IPv4 address was
/// announced.
pub proof fn lemma_pick_address_prefers_reachable(addresses: Seq<IpAddress>, routable: Seq<bool>)
    requires
        addresses.len() == routable.len(),
    ensures
        (spec_pick_address(addresses, routable) is None) == (addresses.len() == 0),
        spec_pick_address(addresses, routable) matches Some(a) ==> exists|i: int|
            0 <= i < addresses.len() && addresses[i] == a && ((exists|j: int|
                0 <= j < routable.len() && routable[j]) ==> routable[i]) && ((exists|j: int|
                0 <= j < routable.len() && routable[j] && addresses[j] is V4) ==> routable[i]
                && a is V4),
{
    let n = addresses.len() as int;
    let both = |i: int| addresses[i] is V4 && routable[i];
    let reachable = |i: int| routable[i];
    let v4 = |i: int| addresses[i] is V4;
    lemma_first_where(n, both, 0);
    lemma_first_where(n, reachable, 0);
    lemma_first_where(n, v4, 0);
    if exists|j: int| 0 <= j < routable.len() && routable[j] && addresses[j] is V4 {
        let j = choose|j: int| 0 <= j < routable.len() && routable[j] && addresses[j] is V4;
        lemma_first_where_finds(n, both, 0, j);
    }
    if exists|j: int| 0 <= j < routable.len() && routable[j] {
        let j = choose|j: int| 0 <= j < routable.len() && routable[j];
        lemma_first_where_finds(n, reachable, 0, j);
    }
    match first_where(n, both, 0) {
        Some(i) => {
            assert(0 <= i < addresses.len() && addresses[i] == addresses[i]);
        },
        None => match first_where(n, reachable, 0) {
            Some(i) => {
                assert(0 <= i < addresses.len() && addresses[i] == addresses[i]);
            },
            None => match first_where(n, v4, 0) {
                Some(i) => {
                    assert(0 <= i < addresses.len() && addresses[i] == addresses[i]);
                },
                None => {
                    if n > 0 {
                        assert(addresses[0] == addresses[0]);
                    }
                },
            },
        },
    }
}

/// One entry of the device list the panel shows: the device's id, its name,
/// its `address:port` and its capability mask.
pub type DeviceEntry = (String, String, String, u32);

/// Whether the name `a` sorts no later than `b`, in the order `str`
/// compares in: character by character by code point (for UTF-8 text the
/// same as byte by byte), a prefix first.
pub open spec fn name_le(a: Seq<char>, b: Seq<char>) -> bool
    decreases a.len(),
{
    if a.len() == 0 {
        true
    } else if b.len() == 0 {
        false
    } else if a[0] != b[0] {
        (a[0] as int) < (b[0] as int)
    } else {
        name_le(a.drop_first(), b.drop_first())
    }
}

/// Any two names are ordered one way or the other.
pub proof fn lemma_name_le_total(a: Seq<char>, b: Seq<char>)
    ensures
        name_le(a, b) || name_le(b, a),
    decreases a.len(),
{
    if a.len() > 0 && b.len() > 0 && a[0] == b[0] {
        lemma_name_le_total(a.drop_first(), b.drop_first());
    }
}

/// The name order is transitive.
pub proof fn lemma_name_le_transitive(a: Seq<char>, b: Seq<char>, c: Seq<char>)
    requires
        name_le(a, b),
        name_le(b, c),
    ensures
        name_le(a, c),
    decreases a.len(),
{
    if a.len() > 0 && b.len() > 0 && c.len() > 0 && a[0] == b[0] && b[0] == c[0] {
        lemma_name_le_transitive(a.drop_first(), b.drop_first(), c.drop_first());
    }
}

/// Whether `entries` are in name order.
pub open spec fn sorted_by_name(entries: Seq<DeviceEntry>) -> bool {
    forall|i: int, j: int|
        0 <= i < j < entries.len() ==> name_le(#[trigger] entries[i].1@, #[trigger] entries[j].1@)
}

/// Whether the name `a` sorts no later than `b`.
fn chars_le(a: &[char], b: &[char]) -> (r: bool)
    ensures
        r == name_le(a@, b@),
{
    let mut i: usize = 0;
    assert(a@.skip(0) =~= a@);
    assert(b@.skip(0) =~= b@);
    while i < a.len() && i < b.len()
        invariant
            i <= a@.len(),
            i <= b@.len(),
            name_le(a@, b@) == name_le(a@.skip(i as int), b@.skip(i as int)),
        decreases a@.len() - i,
    {
        if a[i] != b[i] {
            assert(a@.skip(i as int)[0] == a@[i as int]);
            assert(b@.skip(i as int)[0] == b@[i as int]);
            return a[i] < b[i];
        }
        assert(a@.skip(i as int).drop_first() =~= a@.skip(i + 1));
        assert(b@.skip(i as int).drop_first() =~= b@.skip(i + 1));
        i += 1;
    }
    i == a.len()
}

/// Inserting `e` at `p`, after every entry that sorts no later and before
/// the first that sorts later, keeps the entries in name order.
proof fn lemma_insert_in_order(s: Seq<DeviceEntry>, p: int, e: DeviceEntry)
    requires
        sorted_by_name(s),
        0 <= p <= s.len(),
        forall|k: int| 0 <= k < p ==> name_le(#[trigger] s[k].1@, e.1@),
        p < s.len() ==> !name_le(s[p].1@, e.1@),
    ensures
        sorted_by_name(s.insert(p, e)),
{
    let t = s.insert(p, e);
    if p < s.len() {
        lemma_name_le_total(s[p].1@, e.1@);
    }
    assert forall|i: int, j: int| 0 <= i < j < t.len() implies name_le(
        #[trigger] t[i].1@,
        #[trigger] t[j].1@,
    ) by {
        if j == p {
            assert(t[i] == s[i]);
        } else if i == p {
            assert(t[j] == s[j - 1]);
            if j - 1 > p {
                assert(name_le(s[p].1@, s[j - 1].1@));
                lemma_name_le_transitive(e.1@, s[p].1@, s[j - 1].1@);
            }
        } else {
            let si = if i < p {
                i
            } else {
                i - 1
            };
            let sj = if j < p {
                j
            } else {
                j - 1
            };
            assert(t[i] == s[si]);
            assert(t[j] == s[sj]);
            assert(name_le(s[si].1@, s[sj].1@));
        }
    }
}

/// The device list the panel shows: the entries sorted by name.
pub fn device_list(entries: Vec<DeviceEntry>) -> (r: Vec<DeviceEntry>)
    ensures
        r@.to_multiset() == entries@.to_multiset(),
        sorted_by_name(r@),
{
    broadcast use vstd::seq_lib::group_to_multiset_ensures;

    let mut rest = entries;
    let mut sorted: Vec<DeviceEntry> = Vec::new();
    while rest.len() > 0
        invariant
            sorted_by_name(sorted@),
            sorted@.to_multiset().add(rest@.to_multiset()) == entries@.to_multiset(),
        decreases rest@.len(),
    {
        let ghost before = rest@;
        let e = rest.pop().unwrap();
        proof {
            assert(before =~= rest@.push(e));
        }
        let name = chars_of(e.1.as_str());
        let mut p: usize = 0;
        while p < sorted.len() && chars_le(chars_of(sorted[p].1.as_str()).as_slice(), name.as_slice())
            invariant
                p <= sorted@.len(),
                name@ == e.1@,
                forall|k: int| 0 <= k < p ==> name_le(#[trigger] sorted@[k].1@, e.1@),
            decreases sorted@.len() - p,
        {
            p += 1;
        }
        proof {
            lemma_insert_in_order(sorted@, p as int, e);
        }
        let ghost old_sorted = sorted@;
        sorted.insert(p, e);
        proof {
            broadcast use vstd::multiset::group_multiset_axioms;

            vstd::seq_lib::to_multiset_insert(old_sorted, p as int, e);
            vstd::seq_lib::to_multiset_build(rest@, e);
            assert(sorted@ == old_sorted.insert(p as int, e));
            assert(sorted@.to_multiset() == old_sorted.to_multiset().insert(e));
            assert(before.to_multiset() == rest@.to_multiset().insert(e));
            assert(sorted@.to_multiset().add(rest@.to_multiset()) =~= old_sorted.to_multiset().add(
                before.to_multiset(),
            ));
        }
    }
    proof {
        assert(rest@ =~= Seq::<DeviceEntry>::empty());
    }
    sorted
}

} // verus!
