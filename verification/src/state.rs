//! The single persisted state record: its constructor, the versioned
//! migration chain, the owner gate, and every mutating operation.
use vstd::prelude::*;

use vstd::string::StringExecFns;

use crate::errors::MetricsError;
use crate::order::lex_lt;
use crate::payload::{active_payload_json, build_extrinsics_payload, build_payload, default_extrinsics_payload, default_inflow_payload, default_payload, ext_payload_json, inflow_default_json};
use crate::series::{daily_wf, ext_wf, has_daily_key, has_daily_point, has_ext_key, has_ext_point, series_has_daily_point, series_has_ext_point, upsert_daily_point, upsert_daily_spec, upsert_extrinsics_point, upsert_ext_spec, DailyExtrinsicsPoint, DailyPoint};
use crate::series::{lemma_daily_split, lemma_ext_split, lemma_upsert_daily_wf, lemma_upsert_ext_wf};
use crate::wallets::{count_new_wallets, diff_count, id_set, lemma_diff_count_is_set_difference, wallets_unique};
use crate::DEFAULT_DAYS;

verus! {

/// One manually ingested day: both series' values for a single date.
pub struct DailySnapshotInput {
    /// Calendar-day key.
    pub ts: String,
    /// Wallets active that day.
    pub active: u64,
    /// Wallets first seen that day.
    pub new_wallets: u64,
    /// Extrinsics submitted that day.
    pub extrinsics: u64,
}

/// The process-wide state record: the unit of persistence and of mutation.
pub struct State {
    /// Identity allowed to mutate, as raw principal bytes.
    pub owner: Vec<u8>,
    /// Endpoint the refresh queries.
    pub source_url: String,
    /// Cached active-wallets payload.
    pub payload: String,
    /// Cached extrinsics payload.
    pub extrinsics_payload: String,
    /// Cached inflow payload.
    pub inflow_payload: String,
    /// Time of the last successful mutation, in nanoseconds, if any.
    pub last_updated: Option<u64>,
    /// Active-wallets series, strictly ascending by date.
    pub series: Vec<DailyPoint>,
    /// Extrinsics series, strictly ascending by date.
    pub extrinsics_series: Vec<DailyExtrinsicsPoint>,
    /// Actor identifiers of the previous automatic refresh window.
    pub prev_active_wallets: Vec<String>,
    /// Whether the timer-driven refresh runs.
    pub refresh_enabled: bool,
}

/// What a status query reports.
pub struct Status {
    /// Endpoint the refresh queries.
    pub source_url: String,
    /// Time of the last successful mutation, if any.
    pub last_updated: Option<u64>,
    /// Byte length of the cached active-wallets payload.
    pub payload_bytes: u64,
    /// Whether the timer-driven refresh runs.
    pub refresh_enabled: bool,
}

/// The oldest persisted shape: owner, endpoint, one payload, one timestamp.
pub struct StateV1 {
    pub owner: Vec<u8>,
    pub source_url: String,
    pub payload: String,
    pub last_updated: Option<u64>,
}

/// Adds the wallet series.
pub struct StateV2 {
    pub owner: Vec<u8>,
    pub source_url: String,
    pub payload: String,
    pub last_updated: Option<u64>,
    pub series: Vec<DailyPoint>,
}

/// Adds the previous window's actor identifiers.
pub struct StateV3 {
    pub owner: Vec<u8>,
    pub source_url: String,
    pub payload: String,
    pub last_updated: Option<u64>,
    pub series: Vec<DailyPoint>,
    pub prev_active_wallets: Vec<String>,
}

/// Adds the extrinsics payload and series.
pub struct StateV4 {
    pub owner: Vec<u8>,
    pub source_url: String,
    pub payload: String,
    pub extrinsics_payload: String,
    pub last_updated: Option<u64>,
    pub series: Vec<DailyPoint>,
    pub extrinsics_series: Vec<DailyExtrinsicsPoint>,
    pub prev_active_wallets: Vec<String>,
}

/// Adds the refresh toggle.
pub struct StateV5 {
    pub owner: Vec<u8>,
    pub source_url: String,
    pub payload: String,
    pub extrinsics_payload: String,
    pub last_updated: Option<u64>,
    pub series: Vec<DailyPoint>,
    pub extrinsics_series: Vec<DailyExtrinsicsPoint>,
    pub prev_active_wallets: Vec<String>,
    pub refresh_enabled: bool,
}

/// The wallet point a snapshot describes.
pub open spec fn snapshot_point(s: DailySnapshotInput) -> DailyPoint {
    DailyPoint { ts: s.ts, active: s.active, new_wallets: s.new_wallets }
}

/// The extrinsics point a snapshot describes.
pub open spec fn snapshot_ext_point(s: DailySnapshotInput) -> DailyExtrinsicsPoint {
    DailyExtrinsicsPoint { ts: s.ts, extrinsics: s.extrinsics }
}

/// Both series already hold the snapshot's data.
pub open spec fn snapshot_present(st: State, s: DailySnapshotInput) -> bool {
    has_daily_point(st.series@, snapshot_point(s)) && has_ext_point(st.extrinsics_series@, snapshot_ext_point(s))
}

/// How a state looks after a snapshot was applied at `now`.
pub open spec fn snapshot_applied(pre: State, post: State, snap: DailySnapshotInput, now: u64) -> bool {
    &&& post.series@ == upsert_daily_spec(pre.series@, snapshot_point(snap))
    &&& post.extrinsics_series@ == upsert_ext_spec(pre.extrinsics_series@, snapshot_ext_point(snap))
    &&& post.payload@ == active_payload_json(post.series@)
    &&& post.extrinsics_payload@ == ext_payload_json(post.extrinsics_series@)
    &&& post.last_updated == Some(now)
    &&& post.prev_active_wallets@ == Seq::<String>::empty()
    &&& post.owner == pre.owner
    &&& post.source_url == pre.source_url
    &&& post.inflow_payload == pre.inflow_payload
    &&& post.refresh_enabled == pre.refresh_enabled
}

/// The inter-day delta an automatic refresh records: zero when no previous
/// window exists, else the number of current actors absent from it.
pub open spec fn refresh_delta(prev: Seq<String>, cur: Seq<String>) -> int {
    if prev.len() == 0 {
        0
    } else {
        diff_count(cur, prev)
    }
}

/// For two successive automatic refreshes with a non-empty previous window
/// and a duplicate-free current window, the new-wallet count a refresh
/// records is the cardinality of the set difference between the current and
/// the previous window's identifier sets.
pub proof fn lemma_refresh_delta_is_window_difference(prev: Seq<String>, cur: Seq<String>)
    requires
        prev.len() > 0,
        wallets_unique(cur),
    ensures
        refresh_delta(prev, cur) == id_set(cur).difference(id_set(prev)).len(),
{
    lemma_diff_count_is_set_difference(cur, prev);
}

impl State {
    /// Both series satisfy their invariant.
    pub open spec fn wf(self) -> bool {
        daily_wf(self.series@) && ext_wf(self.extrinsics_series@)
    }

    /// A fresh state: the given owner, the default endpoint, default
    /// payloads, empty series, refresh enabled.
    pub fn new(owner: Vec<u8>) -> (r: State)
        ensures
            r.owner == owner,
            r.source_url@ == default_source_url_spec(),
            r.payload@ == active_payload_json(Seq::<DailyPoint>::empty()),
            r.extrinsics_payload@ == ext_payload_json(Seq::<DailyExtrinsicsPoint>::empty()),
            r.inflow_payload@ == inflow_default_json(),
            r.last_updated is None,
            r.series@ == Seq::<DailyPoint>::empty(),
            r.extrinsics_series@ == Seq::<DailyExtrinsicsPoint>::empty(),
            r.prev_active_wallets@ == Seq::<String>::empty(),
            r.refresh_enabled == true,
            r.wf(),
    {
        let r = State {
            owner,
            source_url: default_source_url(),
            payload: default_payload(),
            extrinsics_payload: default_extrinsics_payload(),
            inflow_payload: default_inflow_payload(),
            last_updated: None,
            series: Vec::new(),
            extrinsics_series: Vec::new(),
            prev_active_wallets: Vec::new(),
            refresh_enabled: true,
        };
        proof {
            assert(r.series@ =~= Seq::<DailyPoint>::empty());
            assert(r.extrinsics_series@ =~= Seq::<DailyExtrinsicsPoint>::empty());
            assert(r.prev_active_wallets@ =~= Seq::<String>::empty());
        }
        r
    }

    /// Upgrades the oldest shape: absent fields take their documented
    /// defaults — empty series, default payloads, refresh enabled.
    pub fn from_v1(v: StateV1) -> (r: State)
        ensures
            r.owner == v.owner,
            r.source_url == v.source_url,
            r.payload == v.payload,
            r.extrinsics_payload@ == ext_payload_json(Seq::<DailyExtrinsicsPoint>::empty()),
            r.inflow_payload@ == inflow_default_json(),
            r.last_updated == v.last_updated,
            r.series@ == Seq::<DailyPoint>::empty(),
            r.extrinsics_series@ == Seq::<DailyExtrinsicsPoint>::empty(),
            r.prev_active_wallets@ == Seq::<String>::empty(),
            r.refresh_enabled == true,
    {
        let r = State {
            owner: v.owner,
            source_url: v.source_url,
            payload: v.payload,
            extrinsics_payload: default_extrinsics_payload(),
            inflow_payload: default_inflow_payload(),
            last_updated: v.last_updated,
            series: Vec::new(),
            extrinsics_series: Vec::new(),
            prev_active_wallets: Vec::new(),
            refresh_enabled: true,
        };
        proof {
            assert(r.series@ =~= Seq::<DailyPoint>::empty());
            assert(r.extrinsics_series@ =~= Seq::<DailyExtrinsicsPoint>::empty());
            assert(r.prev_active_wallets@ =~= Seq::<String>::empty());
        }
        r
    }

    /// Upgrades the second shape: keeps its series, defaults the rest.
    pub fn from_v2(v: StateV2) -> (r: State)
        ensures
            r.owner == v.owner,
            r.source_url == v.source_url,
            r.payload == v.payload,
            r.extrinsics_payload@ == ext_payload_json(Seq::<DailyExtrinsicsPoint>::empty()),
            r.inflow_payload@ == inflow_default_json(),
            r.last_updated == v.last_updated,
            r.series == v.series,
            r.extrinsics_series@ == Seq::<DailyExtrinsicsPoint>::empty(),
            r.prev_active_wallets@ == Seq::<String>::empty(),
            r.refresh_enabled == true,
    {
        let r = State {
            owner: v.owner,
            source_url: v.source_url,
            payload: v.payload,
            extrinsics_payload: default_extrinsics_payload(),
            inflow_payload: default_inflow_payload(),
            last_updated: v.last_updated,
            series: v.series,
            extrinsics_series: Vec::new(),
            prev_active_wallets: Vec::new(),
            refresh_enabled: true,
        };
        proof {
            assert(r.extrinsics_series@ =~= Seq::<DailyExtrinsicsPoint>::empty());
            assert(r.prev_active_wallets@ =~= Seq::<String>::empty());
        }
        r
    }

    /// Upgrades the third shape: also keeps the previous window's actors.
    pub fn from_v3(v: StateV3) -> (r: State)
        ensures
            r.owner == v.owner,
            r.source_url == v.source_url,
            r.payload == v.payload,
            r.extrinsics_payload@ == ext_payload_json(Seq::<DailyExtrinsicsPoint>::empty()),
            r.inflow_payload@ == inflow_default_json(),
            r.last_updated == v.last_updated,
            r.series == v.series,
            r.extrinsics_series@ == Seq::<DailyExtrinsicsPoint>::empty(),
            r.prev_active_wallets == v.prev_active_wallets,
            r.refresh_enabled == true,
    {
        let r = State {
            owner: v.owner,
            source_url: v.source_url,
            payload: v.payload,
            extrinsics_payload: default_extrinsics_payload(),
            inflow_payload: default_inflow_payload(),
            last_updated: v.last_updated,
            series: v.series,
            extrinsics_series: Vec::new(),
            prev_active_wallets: v.prev_active_wallets,
            refresh_enabled: true,
        };
        proof {
            assert(r.extrinsics_series@ =~= Seq::<DailyExtrinsicsPoint>::empty());
        }
        r
    }

    /// Upgrades the fourth shape: also keeps the extrinsics data.
    pub fn from_v4(v: StateV4) -> (r: State)
        ensures
            r.owner == v.owner,
            r.source_url == v.source_url,
            r.payload == v.payload,
            r.extrinsics_payload == v.extrinsics_payload,
            r.inflow_payload@ == inflow_default_json(),
            r.last_updated == v.last_updated,
            r.series == v.series,
            r.extrinsics_series == v.extrinsics_series,
            r.prev_active_wallets == v.prev_active_wallets,
            r.refresh_enabled == true,
    {
        State {
            owner: v.owner,
            source_url: v.source_url,
            payload: v.payload,
            extrinsics_payload: v.extrinsics_payload,
            inflow_payload: default_inflow_payload(),
            last_updated: v.last_updated,
            series: v.series,
            extrinsics_series: v.extrinsics_series,
            prev_active_wallets: v.prev_active_wallets,
            refresh_enabled: true,
        }
    }

    /// Upgrades the fifth shape: only the inflow payload is new.
    pub fn from_v5(v: StateV5) -> (r: State)
        ensures
            r.owner == v.owner,
            r.source_url == v.source_url,
            r.payload == v.payload,
            r.extrinsics_payload == v.extrinsics_payload,
            r.inflow_payload@ == inflow_default_json(),
            r.last_updated == v.last_updated,
            r.series == v.series,
            r.extrinsics_series == v.extrinsics_series,
            r.prev_active_wallets == v.prev_active_wallets,
            r.refresh_enabled == v.refresh_enabled,
    {
        State {
            owner: v.owner,
            source_url: v.source_url,
            payload: v.payload,
            extrinsics_payload: v.extrinsics_payload,
            inflow_payload: default_inflow_payload(),
            last_updated: v.last_updated,
            series: v.series,
            extrinsics_series: v.extrinsics_series,
            prev_active_wallets: v.prev_active_wallets,
            refresh_enabled: v.refresh_enabled,
        }
    }

    /// Hands back the owner bytes.
    pub fn get_owner(&self) -> (r: Vec<u8>)
        ensures
            r@ == self.owner@,
    {
        bytes_clone(&self.owner)
    }

    /// Hands back the cached active-wallets payload.
    pub fn get_active_wallets_daily(&self) -> (r: String)
        ensures
            r@ == self.payload@,
    {
        self.payload.clone()
    }

    /// Hands back the cached extrinsics payload.
    pub fn get_extrinsics_daily(&self) -> (r: String)
        ensures
            r@ == self.extrinsics_payload@,
    {
        self.extrinsics_payload.clone()
    }

    /// Hands back the cached inflow payload.
    pub fn get_new_wallets_inflow(&self) -> (r: String)
        ensures
            r@ == self.inflow_payload@,
    {
        self.inflow_payload.clone()
    }

    /// Reports endpoint, last update time, payload byte length and toggle.
    pub fn get_status(&self) -> (r: Status)
        ensures
            r.source_url@ == self.source_url@,
            r.last_updated == self.last_updated,
            r.payload_bytes == vstd::utf8::encode_utf8(self.payload@).len() as usize as u64,
            r.refresh_enabled == self.refresh_enabled,
    {
        Status {
            source_url: self.source_url.clone(),
            last_updated: self.last_updated,
            payload_bytes: self.payload.as_str().len() as u64,
            refresh_enabled: self.refresh_enabled,
        }
    }

    /// Replaces the owner; only the current owner may.
    pub fn set_owner(&mut self, caller: &Vec<u8>, new_owner: Vec<u8>) -> (r: Result<(), MetricsError>)
        ensures
            caller@ == old(self).owner@ ==> r is Ok && final(self).owner == new_owner
                && unchanged_but_owner(*old(self), *final(self)),
            caller@ != old(self).owner@ ==> (r matches Err(e) && e == MetricsError::Authorization)
                && *final(self) == *old(self),
    {
        if let Err(e) = require_owner(caller, &self.owner) {
            return Err(e);
        }
        self.owner = new_owner;
        Ok(())
    }

    /// Replaces the source endpoint; only the owner may.
    pub fn set_source_url(&mut self, caller: &Vec<u8>, url: String) -> (r: Result<(), MetricsError>)
        ensures
            caller@ == old(self).owner@ ==> r is Ok && final(self).source_url == url
                && unchanged_but_source_url(*old(self), *final(self)),
            caller@ != old(self).owner@ ==> (r matches Err(e) && e == MetricsError::Authorization)
                && *final(self) == *old(self),
    {
        if let Err(e) = require_owner(caller, &self.owner) {
            return Err(e);
        }
        self.source_url = url;
        Ok(())
    }

    /// Turns the timer-driven refresh on or off; only the owner may.
    pub fn set_refresh_enabled(&mut self, caller: &Vec<u8>, enabled: bool) -> (r: Result<(), MetricsError>)
        ensures
            caller@ == old(self).owner@ ==> r is Ok && final(self).refresh_enabled == enabled
                && unchanged_but_refresh_enabled(*old(self), *final(self)),
            caller@ != old(self).owner@ ==> (r matches Err(e) && e == MetricsError::Authorization)
                && *final(self) == *old(self),
    {
        if let Err(e) = require_owner(caller, &self.owner) {
            return Err(e);
        }
        self.refresh_enabled = enabled;
        Ok(())
    }

    /// Folds a manual snapshot into both series and rebuilds the cached
    /// payloads. A snapshot already present in both series changes nothing,
    /// not even the update time. Clears the previous actor window, so the
    /// next automatic delta is not computed across this manual boundary.
    /// Returns the active-wallets payload and whether anything changed.
    pub fn ingest_daily_snapshot(&mut self, caller: &Vec<u8>, snapshot: DailySnapshotInput, now: u64) -> (r: Result<(String, bool), MetricsError>)
        ensures
            caller@ != old(self).owner@ ==> (r matches Err(e) && e == MetricsError::Authorization)
                && *final(self) == *old(self),
            caller@ == old(self).owner@ && snapshot_present(*old(self), snapshot) ==> *final(self)
                == *old(self) && (r matches Ok(out) && out.0@ == old(self).payload@ && out.1 == false),
            caller@ == old(self).owner@ && !snapshot_present(*old(self), snapshot) ==> snapshot_applied(
                *old(self), *final(self), snapshot, now)
                && (r matches Ok(out) && out.0@ == final(self).payload@ && out.1 == true),
            old(self).wf() ==> final(self).wf(),
    {
        if let Err(e) = require_owner(caller, &self.owner) {
            return Err(e);
        }
        let point = DailyPoint {
            ts: snapshot.ts.clone(),
            active: snapshot.active,
            new_wallets: snapshot.new_wallets,
        };
        let ext_point = DailyExtrinsicsPoint { ts: snapshot.ts, extrinsics: snapshot.extrinsics };
        let same_point = series_has_daily_point(&self.series, &point);
        let same_ext = series_has_ext_point(&self.extrinsics_series, &ext_point);
        if same_point && same_ext {
            return Ok((self.payload.clone(), false));
        }
        proof {
            if old(self).wf() {
                lemma_upsert_daily_wf(old(self).series@, point);
                lemma_upsert_ext_wf(old(self).extrinsics_series@, ext_point);
            }
        }
        upsert_daily_point(&mut self.series, point);
        upsert_extrinsics_point(&mut self.extrinsics_series, ext_point);
        self.payload = build_payload(&self.series);
        self.extrinsics_payload = build_extrinsics_payload(&self.extrinsics_series);
        self.last_updated = Some(now);
        self.prev_active_wallets = Vec::new();
        proof {
            assert(self.prev_active_wallets@ =~= Seq::<String>::empty());
        }
        Ok((self.payload.clone(), true))
    }

    /// Replaces the cached inflow payload. A byte-identical payload changes
    /// nothing, not even the update time. Returns the (new) inflow payload
    /// and whether anything changed.
    pub fn ingest_new_wallets_inflow(&mut self, caller: &Vec<u8>, payload: String, now: u64) -> (r: Result<(String, bool), MetricsError>)
        ensures
            caller@ != old(self).owner@ ==> (r matches Err(e) && e == MetricsError::Authorization)
                && *final(self) == *old(self),
            caller@ == old(self).owner@ && old(self).inflow_payload@ == payload@ ==> *final(self)
                == *old(self) && (r matches Ok(out) && out.0@ == old(self).inflow_payload@ && out.1 == false),
            caller@ == old(self).owner@ && old(self).inflow_payload@ != payload@ ==> (r matches Ok(out)
                && out.0@ == payload@ && out.1 == true) && final(self).inflow_payload == payload
                && final(self).last_updated == Some(now) && unchanged_but_inflow(*old(self), *final(self)),
            old(self).wf() ==> final(self).wf(),
    {
        if let Err(e) = require_owner(caller, &self.owner) {
            return Err(e);
        }
        if self.inflow_payload.eq(&payload) {
            return Ok((self.inflow_payload.clone(), false));
        }
        self.inflow_payload = payload;
        self.last_updated = Some(now);
        Ok((self.inflow_payload.clone(), true))
    }

    /// Decides whether a refresh may run: when the toggle is off, the
    /// cached payload is handed back and nothing else happens; when it is
    /// on, nothing is handed back and the fetch proceeds.
    pub fn refresh_gate(&self) -> (r: Option<String>)
        ensures
            self.refresh_enabled ==> r is None,
            !self.refresh_enabled ==> (r matches Some(p) && p@ == self.payload@),
    {
        if self.refresh_enabled {
            None
        } else {
            Some(self.payload.clone())
        }
    }

    /// Commits one automatic refresh: records today's point in both series
    /// with the inter-day delta, rebuilds the cached payloads, stores the
    /// current actor window and the update time. Returns the new payload.
    pub fn apply_refresh(&mut self, active: Vec<String>, extrinsics_count: u64, day_label: String, now: u64) -> (r: String)
        ensures
            final(self).series@ == upsert_daily_spec(old(self).series@, DailyPoint {
                ts: day_label,
                active: active@.len() as u64,
                new_wallets: refresh_delta(old(self).prev_active_wallets@, active@) as u64,
            }),
            final(self).extrinsics_series@ == upsert_ext_spec(old(self).extrinsics_series@, DailyExtrinsicsPoint {
                ts: day_label,
                extrinsics: extrinsics_count,
            }),
            final(self).payload@ == active_payload_json(final(self).series@),
            final(self).extrinsics_payload@ == ext_payload_json(final(self).extrinsics_series@),
            final(self).last_updated == Some(now),
            final(self).prev_active_wallets == active,
            final(self).owner == old(self).owner,
            final(self).source_url == old(self).source_url,
            final(self).inflow_payload == old(self).inflow_payload,
            final(self).refresh_enabled == old(self).refresh_enabled,
            r@ == final(self).payload@,
            old(self).wf() ==> final(self).wf(),
    {
        let new_wallets: u64 = if self.prev_active_wallets.len() == 0 {
            0
        } else {
            count_new_wallets(&active, &self.prev_active_wallets)
        };
        let point = DailyPoint {
            ts: day_label.clone(),
            active: active.len() as u64,
            new_wallets,
        };
        let ext_point = DailyExtrinsicsPoint { ts: day_label, extrinsics: extrinsics_count };
        proof {
            if old(self).wf() {
                lemma_upsert_daily_wf(old(self).series@, point);
                lemma_upsert_ext_wf(old(self).extrinsics_series@, ext_point);
            }
        }
        upsert_daily_point(&mut self.series, point);
        upsert_extrinsics_point(&mut self.extrinsics_series, ext_point);
        self.payload = build_payload(&self.series);
        self.extrinsics_payload = build_extrinsics_payload(&self.extrinsics_series);
        self.last_updated = Some(now);
        self.prev_active_wallets = active;
        self.payload.clone()
    }
}

/// All fields but the owner are untouched.
pub open spec fn unchanged_but_owner(pre: State, post: State) -> bool {
    &&& post.source_url == pre.source_url
    &&& post.payload == pre.payload
    &&& post.extrinsics_payload == pre.extrinsics_payload
    &&& post.inflow_payload == pre.inflow_payload
    &&& post.last_updated == pre.last_updated
    &&& post.series == pre.series
    &&& post.extrinsics_series == pre.extrinsics_series
    &&& post.prev_active_wallets == pre.prev_active_wallets
    &&& post.refresh_enabled == pre.refresh_enabled
}

/// All fields but the source endpoint are untouched.
pub open spec fn unchanged_but_source_url(pre: State, post: State) -> bool {
    &&& post.owner == pre.owner
    &&& post.payload == pre.payload
    &&& post.extrinsics_payload == pre.extrinsics_payload
    &&& post.inflow_payload == pre.inflow_payload
    &&& post.last_updated == pre.last_updated
    &&& post.series == pre.series
    &&& post.extrinsics_series == pre.extrinsics_series
    &&& post.prev_active_wallets == pre.prev_active_wallets
    &&& post.refresh_enabled == pre.refresh_enabled
}

/// All fields but the refresh toggle are untouched.
pub open spec fn unchanged_but_refresh_enabled(pre: State, post: State) -> bool {
    &&& post.owner == pre.owner
    &&& post.source_url == pre.source_url
    &&& post.payload == pre.payload
    &&& post.extrinsics_payload == pre.extrinsics_payload
    &&& post.inflow_payload == pre.inflow_payload
    &&& post.last_updated == pre.last_updated
    &&& post.series == pre.series
    &&& post.extrinsics_series == pre.extrinsics_series
    &&& post.prev_active_wallets == pre.prev_active_wallets
}

/// All fields but the inflow payload and the update time are untouched.
pub open spec fn unchanged_but_inflow(pre: State, post: State) -> bool {
    &&& post.owner == pre.owner
    &&& post.source_url == pre.source_url
    &&& post.payload == pre.payload
    &&& post.extrinsics_payload == pre.extrinsics_payload
    &&& post.series == pre.series
    &&& post.extrinsics_series == pre.extrinsics_series
    &&& post.prev_active_wallets == pre.prev_active_wallets
    &&& post.refresh_enabled == pre.refresh_enabled
}

/// The endpoint a fresh state queries.
pub open spec fn default_source_url_spec() -> Seq<char> {
    "https://squid.subsquid.io/reef-explorer/graphql"@
}

/// The endpoint a fresh state queries.
pub fn default_source_url() -> (r: String)
    ensures
        r@ == default_source_url_spec(),
{
    String::from_str("https://squid.subsquid.io/reef-explorer/graphql")
}

/// The single authorization gate: every mutating operation passes it first.
pub fn require_owner(caller: &Vec<u8>, owner: &Vec<u8>) -> (r: Result<(), MetricsError>)
    ensures
        r is Ok <==> caller@ == owner@,
        r is Err ==> (r matches Err(e) && e == MetricsError::Authorization),
{
    if bytes_eq(caller, owner) {
        Ok(())
    } else {
        Err(MetricsError::Authorization)
    }
}

/// Byte-for-byte equality of two byte vectors.
pub fn bytes_eq(a: &Vec<u8>, b: &Vec<u8>) -> (r: bool)
    ensures
        r == (a@ == b@),
{
    if a.len() != b.len() {
        return false;
    }
    let mut i: usize = 0;
    while i < a.len()
        invariant
            a@.len() == b@.len(),
            0 <= i <= a@.len(),
            forall|j: int| 0 <= j < i ==> a@[j] == b@[j],
        decreases a@.len() - i,
    {
        if a[i] != b[i] {
            return false;
        }
        i = i + 1;
    }
    proof {
        assert(a@ =~= b@);
    }
    true
}

/// A copy of a byte vector.
pub fn bytes_clone(a: &Vec<u8>) -> (r: Vec<u8>)
    ensures
        r@ == a@,
{
    let mut out: Vec<u8> = Vec::new();
    let mut i: usize = 0;
    while i < a.len()
        invariant
            0 <= i <= a@.len(),
            out@ == a@.take(i as int),
        decreases a@.len() - i,
    {
        out.push(a[i]);
        proof {
            assert(a@.take(i + 1) =~= a@.take(i as int).push(a@[i as int]));
        }
        i = i + 1;
    }
    proof {
        assert(a@.take(a@.len() as int) =~= a@);
    }
    out
}

/// Ingesting an identical snapshot twice changes nothing the second time.
/// Any state reached by applying a snapshot — to series that had room for it
/// or already carried its date — holds that snapshot in both series; the
/// ingestion contract then makes the second identical call a no-op: the state
/// (its update time included) stays equal, and no payload changes, so no new
/// certification root is registered.
pub proof fn lemma_snapshot_ingest_idempotent(pre: State, post: State, snap: DailySnapshotInput, now: u64)
    requires
        pre.wf(),
        snapshot_applied(pre, post, snap, now),
        pre.series@.len() < DEFAULT_DAYS || has_daily_key(pre.series@, snap.ts@) || (
        pre.series@.len() > 0 && lex_lt(pre.series@[0].ts@, snap.ts@)),
        pre.extrinsics_series@.len() < DEFAULT_DAYS || has_ext_key(pre.extrinsics_series@, snap.ts@)
            || (pre.extrinsics_series@.len() > 0 && lex_lt(pre.extrinsics_series@[0].ts@, snap.ts@)),
    ensures
        snapshot_present(post, snap),
{
    let p = snapshot_point(snap);
    let ep = snapshot_ext_point(snap);
    lemma_daily_split(pre.series@, p.ts@);
    let mid = crate::series::daily_below(pre.series@, p.ts@) + seq![p] + crate::series::daily_above(pre.series@, p.ts@);
    let b = crate::series::daily_below(pre.series@, p.ts@).len() as int;
    assert(mid[b] == p);
    assert(upsert_daily_spec(pre.series@, p) == crate::series::window_trim(mid));
    if mid.len() <= DEFAULT_DAYS {
        assert(crate::series::dp_eq(post.series@[b], p));
    } else {
        // The window was full and the snapshot's date is new, so exactly one
        // entry — the oldest, which is not the snapshot — leaves the front.
        assert(mid.len() == DEFAULT_DAYS + 1);
        assert(b >= 1);
        assert(post.series@[b - 1] == mid.skip(1)[b - 1]);
        assert(mid.skip(1)[b - 1] == mid[b]);
        assert(crate::series::dp_eq(post.series@[b - 1], p));
    }
    lemma_ext_split(pre.extrinsics_series@, ep.ts@);
    let emid = crate::series::ext_below(pre.extrinsics_series@, ep.ts@) + seq![ep] + crate::series::ext_above(pre.extrinsics_series@, ep.ts@);
    let eb = crate::series::ext_below(pre.extrinsics_series@, ep.ts@).len() as int;
    assert(emid[eb] == ep);
    assert(upsert_ext_spec(pre.extrinsics_series@, ep) == crate::series::window_trim(emid));
    if emid.len() <= DEFAULT_DAYS {
        assert(crate::series::ep_eq(post.extrinsics_series@[eb], ep));
    } else {
        assert(emid.len() == DEFAULT_DAYS + 1);
        assert(eb >= 1);
        assert(post.extrinsics_series@[eb - 1] == emid.skip(1)[eb - 1]);
        assert(emid.skip(1)[eb - 1] == emid[eb]);
        assert(crate::series::ep_eq(post.extrinsics_series@[eb - 1], ep));
    }
}

} // verus!
