//! Serving requests: an announce (who may announce, what the tracker
//! records of it, and the answer with the swarm), and the dispatch of any
//! request to its handler.

use vstd::prelude::*;
use vstd::std_specs::iter::IteratorSpec;
use crate::common::TorrentPeer;
use crate::net::SocketAddr;
use crate::tracker::{TorrentTracker, TrackerModel, bump};
use crate::tracker_objects::stats::Stats;
use crate::tracker::keyed::{HashKey, key_of, owned_entries};
use crate::tracker_objects::peers::{add_peer_fits, model_add_peer, model_remove_peer, remove_peer_fits};
use crate::tracker_objects::torrents::{TorrentEntry, TorrentEntryModel};
use crate::udp::request::{AnnounceRequest, Request, RequestModel, parse_request};
use crate::udp::udp::MAX_SCRAPE_TORRENTS;
use crate::udp::response::{Response, ResponseModel};
use crate::udp::server::{
    AnnounceConfig, AnnounceSwarm, ConnectionIdKey, UdpEvent, announce_access, announce_access_of,
    announce_response, answer_peers, connection_id_of, effective_addr_of, effective_remote_addr,
    handle_udp_connect, handle_udp_scrape, id_valid_at, pair_views, scrape_entry_of, swarm_of,
    swarm_part, udp_stats_event, window_of, PacketPlan, bad_packet_reply, fast_connect, plan_packet, refused_request_reply,
    request_transaction_id,
};
use crate::udp::types::server_error_text;
use crate::udp::types::{AnnounceEvent, ServerError};

verus! {

broadcast use vstd::std_specs::btree::group_btree_axioms;

/// The peer record that an announce makes: the announcing peer at the
/// address it speaks for, stamped `now_ms`.
pub open spec fn announced_peer(request: AnnounceRequest, effective: SocketAddr, now_ms: u64) -> TorrentPeer {
    TorrentPeer {
        peer_id: request.peer_id,
        peer_addr: effective,
        updated: now_ms,
        uploaded: request.bytes_uploaded,
        downloaded: request.bytes_downloaded,
        left: request.bytes_left,
        event: request.event,
    }
}

/// What recording an announce does: a stop takes the peer out of the
/// torrent; any other event adds or updates it, counting a completion for
/// the completed event.
pub open spec fn model_record(m: TrackerModel, request: AnnounceRequest, peer: TorrentPeer, persistent: bool) -> (
    TrackerModel,
    TorrentEntryModel,
) {
    let k = key_of(request.info_hash@);
    let pk = key_of(request.peer_id@);
    if request.event == AnnounceEvent::Stopped {
        model_remove_peer(m, k, pk, persistent)
    } else {
        model_add_peer(m, k, pk, peer, request.event == AnnounceEvent::Completed, persistent)
    }
}

/// Whether recording the announce keeps every counter within `i64`.
pub open spec fn record_fits(m: TrackerModel, request: AnnounceRequest, peer: TorrentPeer) -> bool {
    let k = key_of(request.info_hash@);
    let pk = key_of(request.peer_id@);
    if request.event == AnnounceEvent::Stopped {
        remove_peer_fits(m, k, pk)
    } else {
        add_peer_fits(m, k, pk, peer, request.event == AnnounceEvent::Completed)
    }
}

/// Whether `s` is the swarm of the entry `e` whose peers walk as `w`: see
/// `swarm_of`.
pub open spec fn swarm_matches(s: AnnounceSwarm, w: Seq<(HashKey, TorrentPeer)>, e: TorrentEntry) -> bool {
    &&& pair_views(s.seeds@) == swarm_part(w, true, true)
    &&& pair_views(s.seeds_ipv6@) == swarm_part(w, true, false)
    &&& pair_views(s.peers@) == swarm_part(w, false, true)
    &&& pair_views(s.peers_ipv6@) == swarm_part(w, false, false)
    &&& s.total_seeds == e.seeders
    &&& s.total_peers == e.leechers
}

/// The answer to an announce that speaks for `effective`, given the swarm.
pub open spec fn announce_answer(config: AnnounceConfig, effective: SocketAddr, request: AnnounceRequest, swarm: AnnounceSwarm) -> ResponseModel {
    let ps = answer_peers(request, effective, swarm);
    let interval = config.request_interval as i32;
    let leechers = swarm.total_peers as i32;
    let seeders = swarm.total_seeds as i32;
    if effective.ip is V6 {
        ResponseModel::AnnounceIpv6 {
            transaction_id: request.transaction_id.0,
            announce_interval: interval,
            leechers,
            seeders,
            peers: ps,
        }
    } else {
        ResponseModel::AnnounceIpv4 {
            transaction_id: request.transaction_id.0,
            announce_interval: interval,
            leechers,
            seeders,
            peers: ps,
        }
    }
}

/// The counter an answered announce from `remote` moves.
pub open spec fn announce_event_of(remote: SocketAddr) -> UdpEvent {
    if remote.ip is V4 {
        UdpEvent::Udp4AnnouncesHandled
    } else {
        UdpEvent::Udp6AnnouncesHandled
    }
}

/// Records the announce `request` in the tracker: a stop takes the peer
/// out, any other event adds or updates it (a completion for the completed
/// event). Refuses, leaving the tracker as it is, when a counter would
/// leave the `i64` range.
pub fn record_announce(
    tracker: &mut TorrentTracker,
    request: &AnnounceRequest,
    effective: &SocketAddr,
    now_ms: u64,
    persistent: bool,
) -> (r: Result<TorrentEntry, ServerError>)
    ensures
        ({
            let peer = announced_peer(*request, *effective, now_ms);
            &&& record_fits(old(tracker)@, *request, peer) ==> (r matches Ok(e) && (final(tracker)@, e@)
                == model_record(old(tracker)@, *request, peer, persistent))
            &&& !record_fits(old(tracker)@, *request, peer) ==> r == Err::<TorrentEntry, ServerError>(
                ServerError::InternalServerError,
            ) && final(tracker)@ == old(tracker)@
        }),
{
    let peer = TorrentPeer {
        peer_id: request.peer_id,
        peer_addr: *effective,
        updated: now_ms,
        uploaded: request.bytes_uploaded,
        downloaded: request.bytes_downloaded,
        left: request.bytes_left,
        event: request.event,
    };
    match request.event {
        AnnounceEvent::Stopped => {
            if !tracker.remove_peer_fits_now(request.info_hash, request.peer_id) {
                return Err(ServerError::InternalServerError);
            }
            Ok(tracker.remove_peer(request.info_hash, request.peer_id, persistent))
        },
        _ => {
            let completed = match request.event {
                AnnounceEvent::Completed => true,
                _ => false,
            };
            if !tracker.add_peer_fits_now(request.info_hash, request.peer_id, peer, completed) {
                return Err(ServerError::InternalServerError);
            }
            Ok(tracker.add_peer(request.info_hash, request.peer_id, peer, completed, persistent))
        },
    }
}

/// Serves an announce: the access checks of `announce_access`, then the
/// record of `record_announce` at the address the announce speaks for, then
/// the answer with the torrent's swarm.
pub fn handle_udp_announce(
    tracker: &mut TorrentTracker,
    config: &AnnounceConfig,
    key: &ConnectionIdKey,
    now: u64,
    now_ms: u64,
    remote_addr: &SocketAddr,
    request: &AnnounceRequest,
    use_payload_ip: bool,
    persistent: bool,
) -> (r: Result<(Response, UdpEvent), ServerError>)
    ensures
        ({
            let access = announce_access_of(
                old(tracker)@,
                *config,
                id_valid_at(key@, *remote_addr, request.connection_id.0, now),
                request@,
            );
            let effective = effective_addr_of(*remote_addr, *request, use_payload_ip);
            let peer = announced_peer(*request, effective, now_ms);
            &&& access matches Err(e) ==> r == Err::<(Response, UdpEvent), ServerError>(e) && final(tracker)@
                == old(tracker)@
            &&& (access is Ok && !record_fits(old(tracker)@, *request, peer)) ==> r == Err::<
                (Response, UdpEvent),
                ServerError,
            >(ServerError::InternalServerError) && final(tracker)@ == old(tracker)@
            &&& (access is Ok && record_fits(old(tracker)@, *request, peer)) ==> exists|
                e: TorrentEntry,
                s: AnnounceSwarm,
            |
                {
                    &&& (final(tracker)@, e@) == model_record(old(tracker)@, *request, peer, persistent)
                    &&& swarm_matches(
                        s,
                        owned_entries(vstd::std_specs::btree::spec_btree_map_iter(&e.peers).remaining()),
                        e,
                    )
                    &&& r matches Ok(p) && p.0@ == announce_answer(*config, effective, *request, s) && p.1
                        == announce_event_of(*remote_addr)
                }
        }),
{
    match announce_access(tracker, config, key, now, remote_addr, request) {
        Err(e) => {
            return Err(e);
        },
        Ok(_) => {},
    }
    let effective = effective_remote_addr(remote_addr, request, use_payload_ip);
    let entry = match record_announce(tracker, request, &effective, now_ms, persistent) {
        Err(e) => {
            return Err(e);
        },
        Ok(e) => e,
    };
    let swarm = swarm_of(&entry);
    let answer = announce_response(config, remote_addr, &effective, request, &swarm);
    assert(swarm_matches(
        swarm,
        owned_entries(vstd::std_specs::btree::spec_btree_map_iter(&entry.peers).remaining()),
        entry,
    ));
    Ok(answer)
}


/// Answers a parsed request with its handler: a connect with the
/// connection id of the sender, a scrape with `handle_udp_scrape`, an
/// announce with `handle_udp_announce`. Only an announce changes the
/// tracker.
pub fn handle_request(
    tracker: &mut TorrentTracker,
    config: &AnnounceConfig,
    key: &ConnectionIdKey,
    now: u64,
    now_ms: u64,
    remote_addr: &SocketAddr,
    request: &Request,
    use_payload_ip: bool,
    persistent: bool,
) -> (r: Result<(Response, UdpEvent), ServerError>)
    ensures
        match request {
            Request::Connect(c) => {
                &&& final(tracker)@ == old(tracker)@
                &&& r matches Ok(p) && p.0@ == (ResponseModel::Connect {
                    transaction_id: c.transaction_id.0,
                    connection_id: connection_id_of(key@, *remote_addr, window_of(now)),
                }) && p.1 == (if remote_addr.ip is V4 {
                    UdpEvent::Udp4ConnectionsHandled
                } else {
                    UdpEvent::Udp6ConnectionsHandled
                })
            },
            Request::Scrape(s) => {
                &&& final(tracker)@ == old(tracker)@
                &&& !id_valid_at(key@, *remote_addr, s.connection_id.0, now) ==> r == Err::<
                    (Response, UdpEvent),
                    ServerError,
                >(ServerError::InvalidConnectionId)
                &&& id_valid_at(key@, *remote_addr, s.connection_id.0, now) ==> (r matches Ok(p) && p.0@
                    == (ResponseModel::Scrape {
                    transaction_id: s.transaction_id.0,
                    torrent_stats: Seq::new(
                        s.info_hashes@.len(),
                        |i: int| scrape_entry_of(old(tracker)@, s.info_hashes@[i]@),
                    ),
                }) && p.1 == (if remote_addr.ip is V4 {
                    UdpEvent::Udp4ScrapesHandled
                } else {
                    UdpEvent::Udp6ScrapesHandled
                }))
            },
            Request::Announce(a) => {
                let access = announce_access_of(
                    old(tracker)@,
                    *config,
                    id_valid_at(key@, *remote_addr, a.connection_id.0, now),
                    a@,
                );
                let effective = effective_addr_of(*remote_addr, *a, use_payload_ip);
                let peer = announced_peer(*a, effective, now_ms);
                &&& access matches Err(e) ==> r == Err::<(Response, UdpEvent), ServerError>(e)
                    && final(tracker)@ == old(tracker)@
                &&& (access is Ok && !record_fits(old(tracker)@, *a, peer)) ==> r == Err::<
                    (Response, UdpEvent),
                    ServerError,
                >(ServerError::InternalServerError) && final(tracker)@ == old(tracker)@
                &&& (access is Ok && record_fits(old(tracker)@, *a, peer)) ==> exists|
                    e: TorrentEntry,
                    s: AnnounceSwarm,
                |
                    {
                        &&& (final(tracker)@, e@) == model_record(old(tracker)@, *a, peer, persistent)
                        &&& swarm_matches(
                            s,
                            owned_entries(vstd::std_specs::btree::spec_btree_map_iter(&e.peers).remaining()),
                            e,
                        )
                        &&& r matches Ok(p) && p.0@ == announce_answer(*config, effective, *a, s) && p.1
                            == announce_event_of(*remote_addr)
                    }
            },
        },
{
    match request {
        Request::Connect(c) => Ok(handle_udp_connect(key, remote_addr, c, now)),
        Request::Scrape(s) => handle_udp_scrape(tracker, key, now, remote_addr, s),
        Request::Announce(a) => handle_udp_announce(
            tracker,
            config,
            key,
            now,
            now_ms,
            remote_addr,
            a,
            use_payload_ip,
            persistent,
        ),
    }
}



/// `m` with the counter of the event `e` one higher.
pub open spec fn counted(m: TrackerModel, e: UdpEvent) -> TrackerModel {
    match udp_stats_event(e) {
        Some(se) => TrackerModel { stats: bump(m.stats, se, 1), ..m },
        None => m,
    }
}

/// Whether each counter that answering a datagram moves is below the
/// largest `i64`.
pub open spec fn udp_counters_fit(s: Stats) -> bool {
    &&& s.udp4_connections_handled < i64::MAX
    &&& s.udp6_connections_handled < i64::MAX
    &&& s.udp4_announces_handled < i64::MAX
    &&& s.udp6_announces_handled < i64::MAX
    &&& s.udp4_scrapes_handled < i64::MAX
    &&& s.udp6_scrapes_handled < i64::MAX
    &&& s.udp4_invalid_request < i64::MAX
    &&& s.udp6_invalid_request < i64::MAX
    &&& s.udp4_bad_request < i64::MAX
    &&& s.udp6_bad_request < i64::MAX
}

/// Whether each counter that answering a datagram moves is below the
/// largest `i64`; see `udp_counters_fit`.
pub fn udp_counters_fit_now(s: &Stats) -> (r: bool)
    ensures
        r == udp_counters_fit(*s),
{
    s.udp4_connections_handled < i64::MAX && s.udp6_connections_handled < i64::MAX
        && s.udp4_announces_handled < i64::MAX && s.udp6_announces_handled < i64::MAX
        && s.udp4_scrapes_handled < i64::MAX && s.udp6_scrapes_handled < i64::MAX
        && s.udp4_invalid_request < i64::MAX && s.udp6_invalid_request < i64::MAX
        && s.udp4_bad_request < i64::MAX && s.udp6_bad_request < i64::MAX
}

/// The answer to a request that its handler refused: a "bad request" error
/// under the request's transaction id, counted as an invalid request.
pub open spec fn refused_answer(remote: SocketAddr, transaction_id: i32) -> (ResponseModel, UdpEvent) {
    (
        ResponseModel::Error { transaction_id, message: server_error_text(ServerError::BadRequest) },
        if remote.ip is V4 {
            UdpEvent::Udp4InvalidRequest
        } else {
            UdpEvent::Udp6InvalidRequest
        },
    )
}

/// The answer to a datagram that does not parse.
pub open spec fn bad_answer(remote: SocketAddr) -> (ResponseModel, UdpEvent) {
    (
        ResponseModel::Error { transaction_id: 0, message: server_error_text(ServerError::BadRequest) },
        if remote.ip is V4 {
            UdpEvent::Udp4BadRequest
        } else {
            UdpEvent::Udp6BadRequest
        },
    )
}

/// The answer to a connect.
pub open spec fn connect_answer(key: Seq<u8>, remote: SocketAddr, now: u64, transaction_id: i32) -> (
    ResponseModel,
    UdpEvent,
) {
    (
        ResponseModel::Connect { transaction_id, connection_id: connection_id_of(key, remote, window_of(now)) },
        if remote.ip is V4 {
            UdpEvent::Udp4ConnectionsHandled
        } else {
            UdpEvent::Udp6ConnectionsHandled
        },
    )
}

/// Answers one datagram from `remote_addr`: one that does not parse with a
/// "bad request" error under transaction id 0; a parsed request with what
/// its handler answers, or, when the handler refuses it, with a "bad
/// request" error under the request's transaction id. Only an announce
/// that its handler serves changes the tracker.
pub fn handle_packet(
    tracker: &mut TorrentTracker,
    config: &AnnounceConfig,
    key: &ConnectionIdKey,
    now: u64,
    now_ms: u64,
    remote_addr: &SocketAddr,
    payload: &[u8],
    use_payload_ip: bool,
    persistent: bool,
) -> (r: (Response, UdpEvent))
    requires
        udp_counters_fit(old(tracker)@.stats),
    ensures
        ({
            let parsed = parse_request(payload@, MAX_SCRAPE_TORRENTS);
            &&& parsed is Err ==> (r.0@, r.1) == bad_answer(*remote_addr) && final(tracker)@ == counted(old(tracker)@, r.1)
            &&& parsed is Ok ==> exists|req: Request|
                {
                    &&& parsed == Ok::<RequestModel, crate::udp::request::RequestParseError>(req@)
                    &&& match req {
                        Request::Connect(c) => {
                            &&& (r.0@, r.1) == connect_answer(key@, *remote_addr, now, c.transaction_id.0)
                            &&& final(tracker)@ == counted(old(tracker)@, r.1)
                        },
                        Request::Scrape(sc) => {
                            &&& final(tracker)@ == counted(old(tracker)@, r.1)
                            &&& !id_valid_at(key@, *remote_addr, sc.connection_id.0, now) ==> (r.0@, r.1)
                                == refused_answer(*remote_addr, sc.transaction_id.0)
                            &&& id_valid_at(key@, *remote_addr, sc.connection_id.0, now) ==> r.0@
                                == (ResponseModel::Scrape {
                                transaction_id: sc.transaction_id.0,
                                torrent_stats: Seq::new(
                                    sc.info_hashes@.len(),
                                    |i: int| scrape_entry_of(old(tracker)@, sc.info_hashes@[i]@),
                                ),
                            }) && r.1 == (if remote_addr.ip is V4 {
                                UdpEvent::Udp4ScrapesHandled
                            } else {
                                UdpEvent::Udp6ScrapesHandled
                            })
                        },
                        Request::Announce(a) => {
                            let access = announce_access_of(
                                old(tracker)@,
                                *config,
                                id_valid_at(key@, *remote_addr, a.connection_id.0, now),
                                a@,
                            );
                            let effective = effective_addr_of(*remote_addr, a, use_payload_ip);
                            let peer = announced_peer(a, effective, now_ms);
                            &&& (access is Err || !record_fits(old(tracker)@, a, peer)) ==> (r.0@, r.1)
                                == refused_answer(*remote_addr, a.transaction_id.0) && final(tracker)@
                                == counted(old(tracker)@, r.1)
                            &&& (access is Ok && record_fits(old(tracker)@, a, peer)) ==> exists|
                                e: TorrentEntry,
                                s: AnnounceSwarm,
                            |
                                {
                                    &&& final(tracker)@ == counted(model_record(old(tracker)@, a, peer, persistent).0, r.1)
                                    &&& e@ == model_record(old(tracker)@, a, peer, persistent).1
                                    &&& swarm_matches(
                                        s,
                                        owned_entries(
                                            vstd::std_specs::btree::spec_btree_map_iter(&e.peers).remaining(),
                                        ),
                                        e,
                                    )
                                    &&& r.0@ == announce_answer(*config, effective, a, s)
                                    &&& r.1 == announce_event_of(*remote_addr)
                                }
                        },
                    }
                }
        }),
{
    let ghost before_all = tracker@;
    let answer = match plan_packet(payload) {
        PacketPlan::Connect(c) => {
            let answer = handle_udp_connect(key, remote_addr, &c, now);
            assert(parse_request(payload@, MAX_SCRAPE_TORRENTS) == Ok::<
                RequestModel,
                crate::udp::request::RequestParseError,
            >(Request::Connect(c)@));
            answer
        },
        PacketPlan::Handle(req) => {
            let ghost before = tracker@;
            let outcome = handle_request(
                tracker,
                config,
                key,
                now,
                now_ms,
                remote_addr,
                &req,
                use_payload_ip,
                persistent,
            );
            match outcome {
                Ok(p) => p,
                Err(_) => refused_request_reply(remote_addr, request_transaction_id(&req)),
            }
        },
        PacketPlan::Bad => bad_packet_reply(remote_addr),
    };
    match answer.1.stats_event() {
        Some(e) => {
            tracker.update_stats(e, 1);
        },
        None => {},
    }
    answer
}

} // verus!
