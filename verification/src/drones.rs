//! Drone registration, the drone store's sync states, and signing-key
//! rotation decisions.

use vstd::prelude::*;

use crate::store::Drone;
use crate::store::MAX_TS;

verus! {

/// How long a checkin stays fresh, in seconds.
pub const CHECKIN_VALID_SECS: i64 = 15;

/// How long a drone is told to wait before checking in again, in
/// milliseconds.
pub const CHECKIN_AGAIN_MS: i64 = 9_000;

/// One drone checkin: upserts the drone's row (refreshing its address,
/// region and deadline) and answers when to report back, nine seconds past
/// the drone's own clock.
pub fn handle_checkin(drones: &mut Vec<Drone>, drone_id: String, ip: String, region: String, drone_time_ms: i64, now: i64) -> (reply_ms: i64)
    requires
        0 <= now <= MAX_TS,
        0 <= drone_time_ms <= MAX_TS * 1000,
    ensures
        reply_ms == drone_time_ms + CHECKIN_AGAIN_MS,
        // Upsert: an existing row is refreshed in place, else one is
        // appended.
        ({
            let row = Drone {
                id: drone_id,
                ip,
                region,
                last_checkin: now,
                checkin_by: (now + CHECKIN_VALID_SECS) as i64,
            };
            if exists|i: int| 0 <= i < old(drones)@.len() && (#[trigger] old(drones)@[i]).id@
                == drone_id@ {
                exists|i: int|
                    0 <= i < old(drones)@.len() && (#[trigger] old(drones)@[i]).id@ == drone_id@
                        && final(drones)@ == old(drones)@.update(i, row)
            } else {
                final(drones)@ == old(drones)@.push(row)
            }
        }),
{
    let ghost d0 = drones@;
    let row = Drone {
        id: drone_id,
        ip,
        region,
        last_checkin: now,
        checkin_by: now + CHECKIN_VALID_SECS,
    };
    let ghost rowg = row;
    let mut i: usize = 0;
    while i < drones.len()
        invariant
            d0 == old(drones)@,
            drones@ == d0,
            i <= d0.len(),
            0 <= drone_time_ms <= MAX_TS * 1000,
            0 <= now <= MAX_TS,
            forall|m: int| 0 <= m < i ==> (#[trigger] d0[m]).id@ != rowg.id@,
            row == rowg,
            rowg.id == drone_id && rowg.ip == ip && rowg.region == region,
            rowg.last_checkin == now && rowg.checkin_by == now + CHECKIN_VALID_SECS,
        decreases d0.len() - i,
    {
        if drones[i].id == row.id {
            assert(d0[i as int].id@ == rowg.id@);
            let _ = drones.remove(i);
            drones.insert(i, row);
            assert(drones@ =~= d0.update(i as int, rowg));
            assert(rowg == Drone {
                id: drone_id,
                ip,
                region,
                last_checkin: now,
                checkin_by: (now + CHECKIN_VALID_SECS) as i64,
            });
            assert(exists|m: int|
                0 <= m < d0.len() && (#[trigger] d0[m]).id@ == drone_id@ && drones@ == d0.update(
                    m,
                    rowg,
                ));
            return drone_time_ms + CHECKIN_AGAIN_MS;
        }
        i = i + 1;
    }
    drones.push(row);
    drone_time_ms + CHECKIN_AGAIN_MS
}

/// A drone row is live at `now`: its checkin deadline has not passed.
pub open spec fn drone_active(d: Drone, now: i64) -> bool {
    d.checkin_by > now
}

/// The peers a drone is told about: every other drone whose checkin is
/// fresh.
pub fn active_peers(drones: &Vec<Drone>, caller: &String, now: i64) -> (r: Vec<usize>)
    ensures
        forall|x: int| 0 <= x < r@.len() ==> (#[trigger] r@[x]) < drones@.len() && drone_active(
            drones@[r@[x] as int],
            now,
        ) && drones@[r@[x] as int].id@ != caller@,
        forall|i: int| 0 <= i < drones@.len() && drone_active(#[trigger] drones@[i], now)
            && drones@[i].id@ != caller@ ==> exists|x: int| 0 <= x < r@.len() && r@[x] == i,
{
    let mut out: Vec<usize> = Vec::new();
    let mut i: usize = 0;
    while i < drones.len()
        invariant
            i <= drones@.len(),
            forall|x: int| 0 <= x < out@.len() ==> (#[trigger] out@[x]) < i && drone_active(
                drones@[out@[x] as int],
                now,
            ) && drones@[out@[x] as int].id@ != caller@,
            forall|m: int| 0 <= m < i && drone_active(#[trigger] drones@[m], now) && drones@[m].id@
                != caller@ ==> exists|x: int| 0 <= x < out@.len() && out@[x] == m,
        decreases drones@.len() - i,
    {
        if drones[i].checkin_by > now && !(drones[i].id == *caller) {
            let ghost pre = out@;
            out.push(i);
            proof {
                assert forall|m: int|
                    0 <= m < i + 1 && drone_active(#[trigger] drones@[m], now) && drones@[m].id@
                        != caller@ implies exists|x: int| 0 <= x < out@.len() && out@[x] == m by {
                    if m == i as int {
                        assert(out@[out@.len() - 1] == i);
                    } else {
                        let x0 = choose|x: int| 0 <= x < pre.len() && pre[x] == m;
                        assert(out@[x0] == m);
                    }
                }
            }
        }
        i = i + 1;
    }
    out
}

/// Sync state of one buffered execution in a drone's local store.
#[derive(PartialEq, Eq, Structural, Clone, Copy, Debug)]
pub enum SyncStatus {
    Local,
    Pending,
    Synced,
}

/// Parses a stored sync state; only the three known words are accepted.
pub fn parse_sync_status(s: &str) -> (r: Result<SyncStatus, ()>)
    ensures
        r == (if s@ == "local"@ {
            Ok::<SyncStatus, ()>(SyncStatus::Local)
        } else if s@ == "pending"@ {
            Ok::<SyncStatus, ()>(SyncStatus::Pending)
        } else if s@ == "synced"@ {
            Ok::<SyncStatus, ()>(SyncStatus::Synced)
        } else {
            Err::<SyncStatus, ()>(())
        }),
{
    proof {
        reveal_strlit("local");
        reveal_strlit("pending");
        reveal_strlit("synced");
    }
    let v = String::from_str(s);
    if v == String::from_str("local") {
        Ok(SyncStatus::Local)
    } else if v == String::from_str("pending") {
        Ok(SyncStatus::Pending)
    } else if v == String::from_str("synced") {
        Ok(SyncStatus::Synced)
    } else {
        Err(())
    }
}

/// The stored word for a sync state.
pub fn sync_status_word(s: SyncStatus) -> (r: String)
    ensures
        s is Local ==> r@ == "local"@,
        s is Pending ==> r@ == "pending"@,
        s is Synced ==> r@ == "synced"@,
{
    let w = String::new();
    match s {
        SyncStatus::Local => w.concat("local"),
        SyncStatus::Pending => w.concat("pending"),
        SyncStatus::Synced => w.concat("synced"),
    }
}

/// An envelope-encrypted signing secret. What is inside stays opaque to the
/// scheduler; only the key generation that sealed it matters here.
pub struct Secret {
    pub id: u64,
    pub master_key_id: i32,
    pub secret_version: i32,
    pub encrypted_dek: Vec<u8>,
    pub encrypted_data: Vec<u8>,
    pub algorithm: String,
}

/// The key-rotation worker: finds secrets sealed under an out-of-date master
/// key. The re-encryption itself happens outside the library, against the
/// key ring.
pub struct KeyRotationScheduler;

impl KeyRotationScheduler {
    /// Index of a secret sealed under a master key older than the ring's
    /// latest, if any; with none left, rotation has reached the end.
    pub fn pick_late_secret(secrets: &Vec<Secret>, latest_master_key: i32, reached_end: &mut bool) -> (r: Option<usize>)
        ensures
            (match r {
                Some(i) => i < secrets@.len() && secrets@[i as int].master_key_id
                    < latest_master_key && *final(reached_end) == *old(reached_end),
                None => (forall|i: int| 0 <= i < secrets@.len()
                    ==> (#[trigger] secrets@[i]).master_key_id >= latest_master_key)
                    && *final(reached_end),
            }),
    {
        let mut i: usize = 0;
        while i < secrets.len()
            invariant
                i <= secrets@.len(),
                forall|m: int| 0 <= m < i ==> (#[trigger] secrets@[m]).master_key_id
                    >= latest_master_key,
            decreases secrets@.len() - i,
        {
            if secrets[i].master_key_id < latest_master_key {
                return Some(i);
            }
            i = i + 1;
        }
        *reached_end = true;
        None
    }
}

} // verus!
