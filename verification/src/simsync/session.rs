//! Session commands: hosting, joining, connecting and leaving.
//!
//! Each command checks the state, changes it and reports the outcome; the
//! application does the network work around it.
use vstd::prelude::*;
use crate::simsync::state::{AppState, PeerInfo, SessionInfo, SessionStatus, SessionType};
use crate::text::{concat3, copy_str, str_eq};

verus! {

/// The fields of the state that the session commands do not touch are unchanged.
pub open spec fn same_files_and_sync(a: AppState, b: AppState) -> bool {
    &&& a.sims4_path == b.sims4_path
    &&& a.local_manifest == b.local_manifest
    &&& a.remote_manifest == b.remote_manifest
    &&& a.session_port == b.session_port
    &&& a.is_syncing == b.is_syncing
    &&& a.sync_plan == b.sync_plan
}

fn clone_peer(p: &PeerInfo) -> (r: PeerInfo)
    ensures
        r == *p,
{
    PeerInfo {
        id: p.id.clone(),
        name: p.name.clone(),
        ip: p.ip.clone(),
        port: p.port,
        mod_count: p.mod_count,
        version: p.version.clone(),
    }
}

/// A copy of a list of peers.
pub fn clone_peers(v: &Vec<PeerInfo>) -> (r: Vec<PeerInfo>)
    ensures
        r@ == v@,
{
    let mut r: Vec<PeerInfo> = Vec::new();
    let mut i: usize = 0;
    while i < v.len()
        invariant
            i <= v.len(),
            r@ == v@.take(i as int),
        decreases v.len() - i,
    {
        r.push(clone_peer(&v[i]));
        i += 1;
        assert(r@ =~= v@.take(i as int));
    }
    assert(v@.take(v.len() as int) =~= v@);
    r
}

/// The index of the first peer in `peers` with identifier `id`.
pub open spec fn first_peer_index(peers: Seq<PeerInfo>, id: Seq<char>) -> int
    decreases peers.len(),
{
    if peers.len() == 0 {
        -1
    } else if peers[0].id@ == id {
        0
    } else {
        let k = first_peer_index(peers.drop_first(), id);
        if k < 0 {
            -1
        } else {
            k + 1
        }
    }
}

/// `first_peer_index` is the position of the first peer with that id, or -1 when
/// no peer has it.
pub proof fn lemma_first_peer_index(peers: Seq<PeerInfo>, id: Seq<char>)
    ensures
        -1 <= first_peer_index(peers, id) < peers.len(),
        first_peer_index(peers, id) >= 0 ==> peers[first_peer_index(peers, id)].id@ == id,
        forall|j: int|
            0 <= j < peers.len() && (first_peer_index(peers, id) < 0 || j < first_peer_index(peers, id))
                ==> #[trigger] peers[j].id@ != id,
    decreases peers.len(),
{
    if peers.len() > 0 && peers[0].id@ != id {
        lemma_first_peer_index(peers.drop_first(), id);
        assert forall|j: int|
            0 <= j < peers.len() && (first_peer_index(peers, id) < 0 || j < first_peer_index(
                peers,
                id,
            )) implies #[trigger] peers[j].id@ != id by {
            if j > 0 {
                assert(peers.drop_first()[j - 1] == peers[j]);
            }
        }
    }
}

/// The position of the first peer with identifier `id`.
pub fn find_peer(peers: &Vec<PeerInfo>, id: &str) -> (r: Option<usize>)
    ensures
        match r {
            Some(k) => k < peers.len() && k as int == first_peer_index(peers@, id@),
            None => first_peer_index(peers@, id@) == -1,
        },
{
    proof {
        lemma_first_peer_index(peers@, id@);
    }
    let mut i: usize = 0;
    while i < peers.len()
        invariant
            i <= peers.len(),
            forall|j: int| 0 <= j < i ==> #[trigger] peers@[j].id@ != id@,
            -1 <= first_peer_index(peers@, id@) < peers.len(),
            first_peer_index(peers@, id@) >= 0 ==> peers@[first_peer_index(peers@, id@)].id@ == id@,
            forall|j: int|
                0 <= j < peers.len() && (first_peer_index(peers@, id@) < 0 || j < first_peer_index(
                    peers@,
                    id@,
                )) ==> #[trigger] peers@[j].id@ != id@,
        decreases peers.len() - i,
    {
        if str_eq(peers[i].id.as_str(), id) {
            return Some(i);
        }
        i += 1;
    }
    None
}

/// Starts hosting a session named `name`. Refused while a session is active, and
/// while no game folder is set; otherwise this side becomes the host under `name`
/// and the session's port is reported with no peers yet.
pub fn start_host(state: &mut AppState, name: String) -> (r: Result<SessionInfo, String>)
    ensures
        old(state).session_type != SessionType::Inactive ==> (r matches Err(e) && e@
            == "Already in a session. Disconnect first."@) && *final(state) == *old(state),
        old(state).session_type == SessionType::Inactive && old(state).sims4_path is None ==> (r matches Err(
            e,
        ) && e@ == "Sims 4 path not set. Please set it first."@) && *final(state) == *old(state),
        old(state).session_type == SessionType::Inactive && old(state).sims4_path is Some ==> {
            &&& r matches Ok(info)
            &&& info.session_type == SessionType::Host
            &&& info.name@ == name@
            &&& info.port == old(state).session_port
            &&& info.peer_count == 0
            &&& final(state).session_type == SessionType::Host
            &&& final(state).session_name@ == name@
            &&& final(state).local_display_name@ == name@
            &&& final(state).peers == old(state).peers
            &&& final(state).discovered_peers == old(state).discovered_peers
            &&& same_files_and_sync(*old(state), *final(state))
        },
{
    if state.session_type != SessionType::Inactive {
        return Err("Already in a session. Disconnect first.".to_string());
    }
    if state.sims4_path.is_none() {
        return Err("Sims 4 path not set. Please set it first.".to_string());
    }
    let port = state.session_port;
    state.session_type = SessionType::Host;
    state.session_name = name.clone();
    state.local_display_name = name.clone();
    Ok(SessionInfo { session_type: SessionType::Host, name, port, peer_count: 0 })
}

/// The check before looking for hosts to join: refused while a session is active.
pub fn start_join(state: &AppState) -> (r: Result<(), String>)
    ensures
        r is Ok <==> state.session_type == SessionType::Inactive,
        r matches Err(e) ==> e@ == "Already in a session. Disconnect first."@,
{
    if state.session_type != SessionType::Inactive {
        return Err("Already in a session. Disconnect first.".to_string());
    }
    Ok(())
}

/// Records the hosts found on the network and the name the user chose to join
/// under, and returns the hosts.
pub fn record_discovered_peers(state: &mut AppState, peers: Vec<PeerInfo>, name: String) -> (r: Vec<PeerInfo>)
    ensures
        r@ == peers@,
        final(state).discovered_peers@ == peers@,
        final(state).local_display_name@ == name@,
        final(state).session_type == old(state).session_type,
        final(state).session_name == old(state).session_name,
        final(state).peers == old(state).peers,
        same_files_and_sync(*old(state), *final(state)),
{
    state.discovered_peers = clone_peers(&peers);
    state.local_display_name = name;
    peers
}

/// Connects to the discovered peer `peer_id`: refused when no discovered peer has
/// that identifier; otherwise this side becomes a client of the first such peer.
pub fn connect_to_peer(state: &mut AppState, peer_id: &str) -> (r: Result<SessionInfo, String>)
    ensures
        first_peer_index(old(state).discovered_peers@, peer_id@) < 0 ==> (r matches Err(e) && e@
            == "Peer not found"@) && *final(state) == *old(state),
        first_peer_index(old(state).discovered_peers@, peer_id@) >= 0 ==> {
            let peer = old(state).discovered_peers@[first_peer_index(old(state).discovered_peers@, peer_id@)];
            &&& r matches Ok(info)
            &&& info.session_type == SessionType::Client
            &&& info.name@ == peer.name@
            &&& info.port == peer.port
            &&& info.peer_count == 1
            &&& final(state).session_type == SessionType::Client
            &&& final(state).session_name@ == peer.name@
            &&& final(state).local_display_name == old(state).local_display_name
            &&& final(state).peers == old(state).peers
            &&& final(state).discovered_peers == old(state).discovered_peers
            &&& same_files_and_sync(*old(state), *final(state))
        },
{
    match find_peer(&state.discovered_peers, peer_id) {
        None => Err("Peer not found".to_string()),
        Some(k) => {
            let name = state.discovered_peers[k].name.clone();
            let port = state.discovered_peers[k].port;
            state.session_type = SessionType::Client;
            state.session_name = name.clone();
            Ok(SessionInfo { session_type: SessionType::Client, name, port, peer_count: 1 })
        },
    }
}

/// After a failed connection attempt: no session, no session name, no peers.
pub fn connection_failed(state: &mut AppState)
    ensures
        final(state).session_type == SessionType::Inactive,
        final(state).session_name@.len() == 0,
        final(state).peers@.len() == 0,
        final(state).local_display_name == old(state).local_display_name,
        final(state).discovered_peers == old(state).discovered_peers,
        same_files_and_sync(*old(state), *final(state)),
{
    state.session_type = SessionType::Inactive;
    state.session_name = String::new();
    state.peers = Vec::new();
}

/// Leaves the session: no peers, no session, no names, no discovered hosts.
pub fn disconnect(state: &mut AppState)
    ensures
        final(state).session_type == SessionType::Inactive,
        final(state).session_name@.len() == 0,
        final(state).local_display_name@.len() == 0,
        final(state).peers@.len() == 0,
        final(state).discovered_peers@.len() == 0,
        same_files_and_sync(*old(state), *final(state)),
{
    state.peers = Vec::new();
    state.session_type = SessionType::Inactive;
    state.session_name = String::new();
    state.local_display_name = String::new();
    state.discovered_peers = Vec::new();
}

/// Drops the connected peer `peer_id` and returns it; an error names the peer when
/// none is connected under that identifier.
pub fn disconnect_peer(state: &mut AppState, peer_id: &str) -> (r: Result<PeerInfo, String>)
    ensures
        first_peer_index(old(state).peers@, peer_id@) < 0 ==> (r matches Err(e) && e@ == "Peer '"@
            + peer_id@ + "' not found"@) && *final(state) == *old(state),
        first_peer_index(old(state).peers@, peer_id@) >= 0 ==> {
            let k = first_peer_index(old(state).peers@, peer_id@);
            &&& r matches Ok(p)
            &&& p == old(state).peers@[k]
            &&& final(state).peers@ == old(state).peers@.remove(k)
            &&& final(state).session_type == old(state).session_type
            &&& final(state).session_name == old(state).session_name
            &&& final(state).local_display_name == old(state).local_display_name
            &&& final(state).discovered_peers == old(state).discovered_peers
            &&& same_files_and_sync(*old(state), *final(state))
        },
{
    match find_peer(&state.peers, peer_id) {
        None => Err(concat3("Peer '", peer_id, "' not found")),
        Some(k) => Ok(state.peers.remove(k)),
    }
}

/// The session as shown to the user.
pub fn get_session_status(state: &AppState) -> (r: SessionStatus)
    ensures
        r.session_type == state.session_type,
        r.name@ == state.session_name@,
        r.port == state.session_port,
        r.peers@ == state.peers@,
        r.is_syncing == state.is_syncing,
{
    SessionStatus {
        session_type: state.session_type,
        name: copy_str(state.session_name.as_str()),
        port: state.session_port,
        peers: clone_peers(&state.peers),
        is_syncing: state.is_syncing,
    }
}

} // verus!
