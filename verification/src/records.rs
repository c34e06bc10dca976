//! What the store keeps under a path: the peers allowed on it, and the
//! sync registrations rooted at it. Both are lists, stored as a count
//! followed by the entries; a peer is its 32 bytes, a registration is a
//! peer followed by the remote path.

use vstd::prelude::*;
use vstd::seq_lib::{to_multiset_build, to_multiset_contains, to_multiset_remove};
use crate::peer::{peers_view, PeerId, PEER_ID_LEN};
use crate::protocol::text_fits;
use crate::wire::{
    after_items, enc_each, enc_list, enc_str, lemma_after_items_step, lemma_enc_each_push,
    lemma_parse_list, lemma_parse_str, parse_each, parse_list, parse_str, parse_u64,
    put_str, put_u64, reads_back, take_str, take_u64,
};

verus! {

/// "When the local root changes, tell `peer` about the matching path under
/// `remote_path`."
#[derive(Debug, Clone, PartialEq, Eq)]
pub struct SyncConfig {
    pub peer: PeerId,
    pub remote_path: String,
}

pub struct SyncConfigView {
    pub peer: Seq<u8>,
    pub remote_path: Seq<char>,
}

impl View for SyncConfig {
    type V = SyncConfigView;

    open spec fn view(&self) -> SyncConfigView {
        SyncConfigView { peer: self.peer@, remote_path: self.remote_path@ }
    }
}

/// The views of a list of registrations.
pub open spec fn configs_view(configs: Seq<SyncConfig>) -> Seq<SyncConfigView> {
    configs.map_values(|c: SyncConfig| c@)
}

pub open spec fn parse_peer(b: Seq<u8>) -> Option<(Seq<u8>, nat)> {
    if b.len() >= PEER_ID_LEN {
        Some((b.take(PEER_ID_LEN as int), PEER_ID_LEN as nat))
    } else {
        None
    }
}

pub open spec fn peer_enc() -> spec_fn(Seq<u8>) -> Seq<u8> {
    |p: Seq<u8>| p
}

pub open spec fn peer_item() -> spec_fn(Seq<u8>) -> Option<(Seq<u8>, nat)> {
    |b: Seq<u8>| parse_peer(b)
}

/// The stored form of a list of peers.
pub open spec fn enc_peers(peers: Seq<Seq<u8>>) -> Seq<u8> {
    enc_list(peers, peer_enc())
}

/// The list of peers that stored bytes hold, if they hold one. Bytes after
/// the list are not looked at.
pub open spec fn dec_peers(b: Seq<u8>) -> Option<Seq<Seq<u8>>> {
    match parse_list(b, peer_item()) {
        Some((peers, _)) => Some(peers),
        None => None,
    }
}

/// A list of peers that can be stored: every peer has its 32 bytes and the
/// count fits its field.
pub open spec fn peers_fit(peers: Seq<Seq<u8>>) -> bool {
    &&& peers.len() <= u64::MAX
    &&& forall|i: int| 0 <= i < peers.len() ==> (#[trigger] peers[i]).len() == PEER_ID_LEN
}

pub open spec fn enc_config(c: SyncConfigView) -> Seq<u8> {
    c.peer + enc_str(c.remote_path)
}

pub open spec fn parse_config(b: Seq<u8>) -> Option<(SyncConfigView, nat)> {
    match parse_peer(b) {
        Some((peer, n1)) => match parse_str(b.skip(n1 as int)) {
            Some((remote_path, n2)) => Some((SyncConfigView { peer, remote_path }, n1 + n2)),
            None => None,
        },
        None => None,
    }
}

pub open spec fn config_enc() -> spec_fn(SyncConfigView) -> Seq<u8> {
    |c: SyncConfigView| enc_config(c)
}

pub open spec fn config_item() -> spec_fn(Seq<u8>) -> Option<(SyncConfigView, nat)> {
    |b: Seq<u8>| parse_config(b)
}

/// The stored form of a list of registrations.
pub open spec fn enc_configs(configs: Seq<SyncConfigView>) -> Seq<u8> {
    enc_list(configs, config_enc())
}

/// The registrations that stored bytes hold, if they hold a list of them.
pub open spec fn dec_configs(b: Seq<u8>) -> Option<Seq<SyncConfigView>> {
    match parse_list(b, config_item()) {
        Some((configs, _)) => Some(configs),
        None => None,
    }
}

/// A list of registrations that can be stored.
pub open spec fn configs_fit(configs: Seq<SyncConfigView>) -> bool {
    &&& configs.len() <= u64::MAX
    &&& forall|i: int|
        0 <= i < configs.len() ==> (#[trigger] configs[i]).peer.len() == PEER_ID_LEN && text_fits(
            configs[i].remote_path,
        )
}

/// The list after `peer` is allowed: unchanged if it is there already,
/// else with `peer` at the end.
pub open spec fn peers_allowed(peers: Seq<Seq<u8>>, peer: Seq<u8>) -> Seq<Seq<u8>> {
    if peers.contains(peer) {
        peers
    } else {
        peers.push(peer)
    }
}

/// The list after `peer` is disallowed: without its first occurrence, or
/// unchanged if there is none.
pub open spec fn peers_disallowed(peers: Seq<Seq<u8>>, peer: Seq<u8>) -> Seq<Seq<u8>> {
    peers.remove_value(peer)
}

/// How often `peer` stands in the list.
pub open spec fn occurrences(peers: Seq<Seq<u8>>, peer: Seq<u8>) -> nat {
    peers.to_multiset().count(peer)
}

pub proof fn lemma_peers_roundtrip(peers: Seq<Seq<u8>>)
    requires
        peers_fit(peers),
    ensures
        dec_peers(enc_peers(peers)) == Some(peers),
{
    assert forall|i: int| 0 <= i < peers.len() implies reads_back(
        #[trigger] peers[i],
        peer_enc(),
        peer_item(),
    ) by {
        let p = peers[i];
        assert forall|tail: Seq<u8>| #[trigger]
            peer_item()(peer_enc()(p) + tail) == Some((p, peer_enc()(p).len())) by {
            assert((p + tail).take(PEER_ID_LEN as int) =~= p);
        }
    }
    let none = Seq::<u8>::empty();
    lemma_parse_list(peers, none, peer_enc(), peer_item());
    assert(enc_peers(peers) + none =~= enc_peers(peers));
}

pub proof fn lemma_configs_roundtrip(configs: Seq<SyncConfigView>)
    requires
        configs_fit(configs),
    ensures
        dec_configs(enc_configs(configs)) == Some(configs),
{
    assert forall|i: int| 0 <= i < configs.len() implies reads_back(
        #[trigger] configs[i],
        config_enc(),
        config_item(),
    ) by {
        let c = configs[i];
        assert forall|tail: Seq<u8>| #[trigger]
            config_item()(config_enc()(c) + tail) == Some((c, config_enc()(c).len())) by {
            let b = enc_config(c) + tail;
            assert(b.take(PEER_ID_LEN as int) =~= c.peer);
            assert(b.skip(PEER_ID_LEN as int) =~= enc_str(c.remote_path) + tail);
            lemma_parse_str(c.remote_path, tail);
        }
    }
    let none = Seq::<u8>::empty();
    lemma_parse_list(configs, none, config_enc(), config_item());
    assert(enc_configs(configs) + none =~= enc_configs(configs));
}

/// Allowing a peer and then disallowing it leaves the peer out, provided
/// it did not stand in the list more than once before.
pub proof fn lemma_allow_then_disallow(peers: Seq<Seq<u8>>, peer: Seq<u8>)
    requires
        occurrences(peers, peer) <= 1,
    ensures
        !peers_disallowed(peers_allowed(peers, peer), peer).contains(peer),
{
    let allowed = peers_allowed(peers, peer);
    lemma_allowed_once(peers, peer);
    to_multiset_contains(allowed, peer);
    allowed.index_of_first_ensures(peer);
    let i = allowed.index_of_first(peer).unwrap();
    to_multiset_remove(allowed, i);
    to_multiset_contains(allowed.remove(i), peer);
}

/// Allowing a peer leaves it in the list exactly once, provided it did not
/// stand there more than once before; allowing it again changes nothing.
pub proof fn lemma_allowed_once(peers: Seq<Seq<u8>>, peer: Seq<u8>)
    requires
        occurrences(peers, peer) <= 1,
    ensures
        occurrences(peers_allowed(peers, peer), peer) == 1,
        peers_allowed(peers_allowed(peers, peer), peer) == peers_allowed(peers, peer),
{
    to_multiset_contains(peers, peer);
    if !peers.contains(peer) {
        to_multiset_build(peers, peer);
        assert(peers.push(peer)[peers.len() as int] == peer);
    }
}

/// Disallowing a peer that is not in the list changes nothing.
pub proof fn law_disallow_absent(peers: Seq<Seq<u8>>, peer: Seq<u8>)
    requires
        !peers.contains(peer),
    ensures
        peers_disallowed(peers, peer) == peers,
{
    peers.index_of_first_ensures(peer);
}


/// What `parse_each` reads as peers are that many peers of 32 bytes each.
pub proof fn lemma_parsed_peers(b: Seq<u8>, count: nat)
    ensures
        parse_each(b, count, peer_item()) matches Some((peers, _)) ==> peers.len() == count
            && forall|i: int| 0 <= i < peers.len() ==> (#[trigger] peers[i]).len() == PEER_ID_LEN,
    decreases count,
{
    if count > 0 {
        match parse_peer(b) {
            Some((p, n)) => {
                lemma_parsed_peers(b.skip(n as int), (count - 1) as nat);
            },
            None => {},
        }
    }
}

/// Every list of peers that is read from stored bytes can be stored.
pub proof fn lemma_dec_peers_fit(b: Seq<u8>)
    ensures
        dec_peers(b) matches Some(peers) ==> peers_fit(peers),
{
    match parse_u64(b) {
        Some((count, n)) => {
            lemma_parsed_peers(b.skip(n as int), count as nat);
        },
        None => {},
    }
}

/// The list of peers in memory can always be stored.
pub proof fn lemma_peers_in_memory_fit(peers: Seq<PeerId>)
    requires
        peers.len() <= usize::MAX,
    ensures
        peers_fit(peers_view(peers)),
{
    assert forall|i: int| 0 <= i < peers.len() implies (#[trigger] peers_view(peers)[i]).len()
        == PEER_ID_LEN by {
        peers[i].lemma_len();
    }
}

/// Whether `peer` is in the list.
pub fn contains_peer(peers: &Vec<PeerId>, peer: &PeerId) -> (r: bool)
    ensures
        r == peers_view(peers@).contains(peer@),
{
    position_of(peers, peer).is_some()
}

/// The first place of `peer` in the list.
pub fn position_of(peers: &Vec<PeerId>, peer: &PeerId) -> (r: Option<usize>)
    ensures
        match r {
            Some(i) => i < peers@.len() && peers_view(peers@)[i as int] == peer@ && forall|j: int|
                0 <= j < i ==> peers_view(peers@)[j] != peer@,
            None => !peers_view(peers@).contains(peer@),
        },
{
    let mut i: usize = 0;
    while i < peers.len()
        invariant
            i <= peers@.len(),
            forall|j: int| 0 <= j < i ==> peers_view(peers@)[j] != peer@,
        decreases peers@.len() - i,
    {
        if peers[i].same(peer) {
            return Some(i);
        }
        i = i + 1;
    }
    None
}

/// Allows `peer` in the list, and says whether the list changed.
pub fn allow_in(peers: &mut Vec<PeerId>, peer: PeerId) -> (changed: bool)
    ensures
        peers_view(final(peers)@) == peers_allowed(peers_view(old(peers)@), peer@),
        changed == !peers_view(old(peers)@).contains(peer@),
{
    if contains_peer(peers, &peer) {
        false
    } else {
        peers.push(peer);
        proof {
            assert(peers_view(peers@) =~= peers_view(old(peers)@).push(peer@));
        }
        true
    }
}

/// Disallows `peer` in the list, and says whether the list changed.
pub fn disallow_in(peers: &mut Vec<PeerId>, peer: PeerId) -> (changed: bool)
    ensures
        peers_view(final(peers)@) == peers_disallowed(peers_view(old(peers)@), peer@),
        changed == peers_view(old(peers)@).contains(peer@),
{
    let ghost before = peers_view(peers@);
    proof {
        before.index_of_first_ensures(peer@);
    }
    match position_of(peers, &peer) {
        Some(i) => {
            peers.remove(i);
            proof {
                assert(before.index_of_first(peer@) == Some(i as int));
                assert(peers_view(peers@) =~= before.remove(i as int));
            }
            true
        },
        None => false,
    }
}

/// The stored form of the list, which decodes to the list again.
pub fn encode_peers(peers: &Vec<PeerId>) -> (out: Vec<u8>)
    ensures
        out@ == enc_peers(peers_view(peers@)),
        dec_peers(out@) == Some(peers_view(peers@)),
{
    let ghost views = peers_view(peers@);
    let mut out: Vec<u8> = Vec::new();
    put_u64(&mut out, peers.len() as u64);
    let ghost head = out@;
    let mut i: usize = 0;
    proof {
        assert(views.take(0) =~= Seq::<Seq<u8>>::empty());
        assert(out@ =~= head + enc_each(views.take(0), peer_enc()));
    }
    while i < peers.len()
        invariant
            i <= peers@.len(),
            views == peers_view(peers@),
            out@ == head + enc_each(views.take(i as int), peer_enc()),
        decreases peers@.len() - i,
    {
        peers[i].write_to(&mut out);
        proof {
            lemma_enc_each_push(views.take(i as int), views[i as int], peer_enc());
            assert(views.take(i + 1) =~= views.take(i as int).push(views[i as int]));
            assert(out@ =~= head + enc_each(views.take(i + 1), peer_enc()));
        }
        i = i + 1;
    }
    proof {
        assert(views.take(i as int) =~= views);
        lemma_peers_in_memory_fit(peers@);
        lemma_peers_roundtrip(views);
    }
    out
}

/// The list that stored bytes hold, or nothing when they hold none.
pub fn decode_peers(bytes: &[u8]) -> (r: Option<Vec<PeerId>>)
    ensures
        match dec_peers(bytes@) {
            Some(peers) => r matches Some(got) && peers_view(got@) == peers,
            None => r is None,
        },
{
    proof {
        assert(bytes@.skip(0) =~= bytes@);
    }
    let (count, start) = match take_u64(bytes, 0) {
        Some(x) => x,
        None => { return None; },
    };
    let ghost s = bytes@.skip(start as int);
    let total: usize = bytes.len();
    let mut peers: Vec<PeerId> = Vec::new();
    let mut at: usize = start;
    let mut i: u64 = 0;
    proof {
        assert(s.skip(0) =~= s);
        assert(peers_view(peers@) =~= Seq::<Seq<u8>>::empty());
        match parse_each(s, count as nat, peer_item()) {
            Some((xs, m)) => {
                assert(peers_view(peers@) + xs =~= xs);
            },
            None => {},
        }
    }
    while i < count
        invariant
            i <= count,
            start <= at <= bytes@.len(),
            total == bytes@.len(),
            s == bytes@.skip(start as int),
            parse_u64(bytes@) == Some((count, start as nat)),
            parse_each(s, count as nat, peer_item()) == after_items(
                peers_view(peers@),
                (at - start) as nat,
                parse_each(s.skip(at - start), (count - i) as nat, peer_item()),
            ),
        decreases count - i,
    {
        let ghost done = peers_view(peers@);
        proof {
            assert(s.skip(at - start) =~= bytes@.skip(at as int));
            lemma_after_items_step(s, (count - i) as nat, peer_item(), done, (at - start) as nat);
        }
        if total - at < PEER_ID_LEN {
            return None;
        }
        let p = PeerId::read_at(bytes, at);
        peers.push(p);
        proof {
            assert(bytes@.skip(at as int).take(PEER_ID_LEN as int) =~= p@);
            assert(peers_view(peers@) =~= done.push(p@));
        }
        at = at + PEER_ID_LEN;
        i = i + 1;
    }
    proof {
        assert(peers_view(peers@) + Seq::<Seq<u8>>::empty() =~= peers_view(peers@));
    }
    Some(peers)
}

impl SyncConfig {
    /// Appends the registration's stored form to `out`.
    pub fn encode_into(&self, out: &mut Vec<u8>)
        ensures
            final(out)@ == old(out)@ + enc_config(self@),
            self@.peer.len() == PEER_ID_LEN,
            text_fits(self@.remote_path),
    {
        let ghost before = out@;
        proof {
            self.peer.lemma_len();
        }
        self.peer.write_to(out);
        put_str(out, self.remote_path.as_str());
        proof {
            assert(out@ =~= before + enc_config(self@));
        }
    }

    /// Reads one registration at `pos` and gives it with the position
    /// after it.
    pub(crate) fn decode_at(buf: &[u8], pos: usize) -> (r: Option<(SyncConfig, usize)>)
        requires
            pos <= buf@.len(),
        ensures
            match parse_config(buf@.skip(pos as int)) {
                Some((c, n)) => r matches Some((got, next)) && got@ == c && next == pos + n && 1
                    <= n && pos + n <= buf@.len(),
                None => r is None,
            },
    {
        let ghost b = buf@.skip(pos as int);
        if buf.len() - pos < PEER_ID_LEN {
            return None;
        }
        let peer = PeerId::read_at(buf, pos);
        let mark1: usize = pos + PEER_ID_LEN;
        proof {
            assert(b.take(PEER_ID_LEN as int) =~= peer@);
            assert(b.skip(PEER_ID_LEN as int) =~= buf@.skip(mark1 as int));
        }
        match take_str(buf, mark1) {
            Some((remote_path, next)) => Some((SyncConfig { peer, remote_path }, next)),
            None => None,
        }
    }
}

/// The stored form of a list of registrations, which decodes to the list
/// again.
pub fn encode_configs(configs: &Vec<SyncConfig>) -> (out: Vec<u8>)
    ensures
        out@ == enc_configs(configs_view(configs@)),
        dec_configs(out@) == Some(configs_view(configs@)),
{
    let ghost views = configs_view(configs@);
    let mut out: Vec<u8> = Vec::new();
    put_u64(&mut out, configs.len() as u64);
    let ghost head = out@;
    let mut i: usize = 0;
    proof {
        assert(views.take(0) =~= Seq::<SyncConfigView>::empty());
        assert(out@ =~= head + enc_each(views.take(0), config_enc()));
    }
    while i < configs.len()
        invariant
            i <= configs@.len(),
            views == configs_view(configs@),
            out@ == head + enc_each(views.take(i as int), config_enc()),
            forall|j: int|
                0 <= j < i ==> (#[trigger] views[j]).peer.len() == PEER_ID_LEN && text_fits(
                    views[j].remote_path,
                ),
        decreases configs@.len() - i,
    {
        configs[i].encode_into(&mut out);
        proof {
            lemma_enc_each_push(views.take(i as int), views[i as int], config_enc());
            assert(views.take(i + 1) =~= views.take(i as int).push(views[i as int]));
            assert(out@ =~= head + enc_each(views.take(i + 1), config_enc()));
        }
        i = i + 1;
    }
    proof {
        assert(views.take(i as int) =~= views);
        lemma_configs_roundtrip(views);
    }
    out
}

/// The registrations that stored bytes hold, or nothing when they hold no
/// list of them.
pub fn decode_configs(bytes: &[u8]) -> (r: Option<Vec<SyncConfig>>)
    ensures
        match dec_configs(bytes@) {
            Some(configs) => r matches Some(got) && configs_view(got@) == configs,
            None => r is None,
        },
{
    proof {
        assert(bytes@.skip(0) =~= bytes@);
    }
    let (count, start) = match take_u64(bytes, 0) {
        Some(x) => x,
        None => { return None; },
    };
    let ghost s = bytes@.skip(start as int);
    let mut configs: Vec<SyncConfig> = Vec::new();
    let mut at: usize = start;
    let mut i: u64 = 0;
    proof {
        assert(s.skip(0) =~= s);
        assert(configs_view(configs@) =~= Seq::<SyncConfigView>::empty());
        match parse_each(s, count as nat, config_item()) {
            Some((xs, m)) => {
                assert(configs_view(configs@) + xs =~= xs);
            },
            None => {},
        }
    }
    while i < count
        invariant
            i <= count,
            start <= at <= bytes@.len(),
            s == bytes@.skip(start as int),
            parse_u64(bytes@) == Some((count, start as nat)),
            parse_each(s, count as nat, config_item()) == after_items(
                configs_view(configs@),
                (at - start) as nat,
                parse_each(s.skip(at - start), (count - i) as nat, config_item()),
            ),
        decreases count - i,
    {
        let ghost done = configs_view(configs@);
        proof {
            assert(s.skip(at - start) =~= bytes@.skip(at as int));
        }
        match SyncConfig::decode_at(bytes, at) {
            Some((c, next)) => {
                proof {
                    lemma_after_items_step(
                        s,
                        (count - i) as nat,
                        config_item(),
                        done,
                        (at - start) as nat,
                    );
                }
                configs.push(c);
                proof {
                    assert(configs_view(configs@) =~= done.push(c@));
                }
                at = next;
                i = i + 1;
            },
            None => {
                proof {
                    lemma_after_items_step(
                        s,
                        (count - i) as nat,
                        config_item(),
                        done,
                        (at - start) as nat,
                    );
                }
                return None;
            },
        }
    }
    proof {
        assert(configs_view(configs@) + Seq::<SyncConfigView>::empty() =~= configs_view(configs@));
    }
    Some(configs)
}

} // verus!
