//! Preserving a server snapshot on this device when the server stops
//! syncing equalizers: which server profiles and rules are already kept
//! locally, which are copied under collision-free ids and names, and the
//! old → new id maps that retarget queued edits. The plan is computed here;
//! writing it in one transaction is the application's work.
use vstd::prelude::*;

use crate::equalizer::model::{
    name_key, normalized_matcher, EqualizerDeviceRule, EqualizerProfile, EqualizerState,
    LocalEqualizerState, Revision, RuleAction,
};
use crate::equalizer::naming::{
    claim_random_recovery_name, claim_recovery_name, contains_key, random_recovery_candidate,
    recovery_name_pick, texts,
};
use crate::equalizer::ops::copy_selectors;
use crate::equalizer::repo::{
    name_based_bytes, opt_text, recovery_profile_id, recovery_seed, same_action, same_selector,
    same_selector_spec, EqualizerRecoveryMap,
};
use crate::hashing::{sha256, uuid_text};
use crate::text::trim_ws;

verus! {

/// The name key a profile name is compared by.
pub open spec fn key_of(name: Seq<char>) -> Seq<char> {
    normalized_matcher(trim_ws(name))
}

/// The recovery id of a server profile at a salt.
pub open spec fn recovery_id_text(scope: Seq<char>, server_id: Seq<char>, salt: u32) -> Seq<char> {
    uuid_text(name_based_bytes(sha256(vstd::utf8::encode_utf8(recovery_seed(scope, server_id, salt)))))
}

/// A local and a server profile carry the same payload: format, headroom
/// flag and (as the caller compared it) the sound.
pub open spec fn same_profile_payload<S>(l: EqualizerProfile<S>, s: EqualizerProfile<S>, same_sound: bool) -> bool {
    l.format_version == s.format_version && l.auto_headroom_enabled == s.auto_headroom_enabled
        && same_sound
}

/// The first local profile, from `j` on, that already keeps server profile
/// `sp`: same id or same name key, and the same payload.
pub open spec fn reusable_from<S>(lp: Seq<EqualizerProfile<S>>, sp: EqualizerProfile<S>, row: Seq<bool>, j: int) -> Option<int>
    decreases lp.len() - j,
{
    if j < 0 || j >= lp.len() {
        None
    } else if (lp[j].id@ == sp.id@ || key_of(lp[j].name@) == key_of(sp.name@))
        && same_profile_payload(lp[j], sp, row[j]) {
        Some(j)
    } else {
        reusable_from(lp, sp, row, j + 1)
    }
}

/// The first local profile, from `j` on, with id `id`.
pub open spec fn local_with_id<S>(lp: Seq<EqualizerProfile<S>>, id: Seq<char>, j: int) -> Option<int>
    decreases lp.len() - j,
{
    if j < 0 || j >= lp.len() {
        None
    } else if lp[j].id@ == id {
        Some(j)
    } else {
        local_with_id(lp, id, j + 1)
    }
}

/// The salt search for a server profile whose id is taken: the first salt
/// whose recovery id is either a local profile with the same payload
/// (reused, `true`) or a free id (`false`); `None` when every salt fails.
pub open spec fn salt_pick<S>(
    scope: Seq<char>,
    lp: Seq<EqualizerProfile<S>>,
    sp: EqualizerProfile<S>,
    row: Seq<bool>,
    used: Seq<Seq<char>>,
    salt: int,
) -> Option<(Seq<char>, bool)>
    decreases u32::MAX - salt,
{
    if salt < 0 || salt > u32::MAX {
        None
    } else {
        let c = recovery_id_text(scope, sp.id@, salt as u32);
        let found = match local_with_id(lp, c, 0) {
            Some(j) => if same_profile_payload(lp[j], sp, row[j]) {
                Some((c, true))
            } else {
                None
            },
            None => if !used.contains(c) {
                Some((c, false))
            } else {
                None
            },
        };
        if found is Some {
            found
        } else if salt >= u32::MAX {
            None
        } else {
            salt_pick(scope, lp, sp, row, used, salt + 1)
        }
    }
}

/// Index of the pair for key `k`, from `i` on, or -1.
pub open spec fn pair_index(m: Seq<(Seq<char>, Seq<char>)>, k: Seq<char>, i: int) -> int
    decreases m.len() - i,
{
    if i < 0 || i >= m.len() {
        -1
    } else if m[i].0 == k {
        i
    } else {
        pair_index(m, k, i + 1)
    }
}

/// The value mapped to `k`.
pub open spec fn pair_get(m: Seq<(Seq<char>, Seq<char>)>, k: Seq<char>) -> Option<Seq<char>> {
    let i = pair_index(m, k, 0);
    if i >= 0 {
        Some(m[i].1)
    } else {
        None
    }
}

/// Map `k` to `v`, replacing an earlier value.
pub open spec fn pair_put(m: Seq<(Seq<char>, Seq<char>)>, k: Seq<char>, v: Seq<char>) -> Seq<
    (Seq<char>, Seq<char>),
> {
    let i = pair_index(m, k, 0);
    if i >= 0 {
        m.update(i, (k, v))
    } else {
        m.push((k, v))
    }
}

pub open spec fn pairs_view(m: Seq<(String, String)>) -> Seq<(Seq<char>, Seq<char>)> {
    m.map_values(|p: (String, String)| (p.0@, p.1@))
}

/// Where the profile pass stands: ids and name keys in use, the server →
/// local profile map, the profiles to copy (server index, new id, name),
/// and whether every server profile found a place.
pub struct ProfilePass {
    pub used_ids: Seq<Seq<char>>,
    pub used_keys: Seq<Seq<char>>,
    pub map: Seq<(Seq<char>, Seq<char>)>,
    pub added: Seq<(int, Seq<char>, Seq<char>)>,
    pub ok: bool,
}

pub open spec fn profile_ids<S>(ps: Seq<EqualizerProfile<S>>) -> Seq<Seq<char>> {
    ps.map_values(|p: EqualizerProfile<S>| p.id@)
}

pub open spec fn profile_keys<S>(ps: Seq<EqualizerProfile<S>>) -> Seq<Seq<char>> {
    ps.map_values(|p: EqualizerProfile<S>| key_of(p.name@))
}

/// One server profile: reuse a local copy; else keep its id when free or
/// find a recovery id by salt (reusing an equal local recovery copy); a new
/// copy gets a free recovery name (`random` names the last resort).
pub open spec fn profile_step<S>(
    scope: Seq<char>,
    lp: Seq<EqualizerProfile<S>>,
    sp: EqualizerProfile<S>,
    row: Seq<bool>,
    random: Seq<char>,
    i: int,
    acc: ProfilePass,
) -> ProfilePass {
    if !acc.ok {
        acc
    } else {
        match reusable_from(lp, sp, row, 0) {
            Some(j) => ProfilePass { map: pair_put(acc.map, sp.id@, lp[j].id@), ..acc },
            None => {
                let pick = if !acc.used_ids.contains(sp.id@) {
                    Some((sp.id@, false))
                } else {
                    salt_pick(scope, lp, sp, row, acc.used_ids, 0)
                };
                match pick {
                    None => ProfilePass { ok: false, ..acc },
                    Some((id, reused)) => if reused {
                        ProfilePass { map: pair_put(acc.map, sp.id@, id), ..acc }
                    } else {
                        let name = match recovery_name_pick(sp.name@, acc.used_keys) {
                            Some(n) => Some(n),
                            None => if acc.used_keys.contains(
                                key_of(random_recovery_candidate(random)),
                            ) {
                                None
                            } else {
                                Some(random_recovery_candidate(random))
                            },
                        };
                        match name {
                            None => ProfilePass { ok: false, ..acc },
                            Some(n) => ProfilePass {
                                used_ids: acc.used_ids.push(id),
                                used_keys: acc.used_keys.push(key_of(n)),
                                map: pair_put(acc.map, sp.id@, id),
                                added: acc.added.push((i, id, n)),
                                ok: true,
                            },
                        }
                    },
                }
            },
        }
    }
}

/// The profile pass over the first `k` server profiles.
pub open spec fn profiles_pass<S>(
    scope: Seq<char>,
    lp: Seq<EqualizerProfile<S>>,
    sps: Seq<EqualizerProfile<S>>,
    same: Seq<Seq<bool>>,
    randoms: Seq<Seq<char>>,
    k: nat,
) -> ProfilePass
    decreases k,
{
    if k == 0 {
        ProfilePass {
            used_ids: profile_ids(lp),
            used_keys: profile_keys(lp),
            map: Seq::empty(),
            added: Seq::empty(),
            ok: true,
        }
    } else {
        profile_step(
            scope,
            lp,
            sps[k - 1],
            same[k - 1],
            randoms[k - 1],
            k - 1,
            profiles_pass(scope, lp, sps, same, randoms, (k - 1) as nat),
        )
    }
}

fn find_reusable<S>(lp: &Vec<EqualizerProfile<S>>, sp: &EqualizerProfile<S>, sp_key: &String, row: &Vec<bool>) -> (r: Option<usize>)
    requires
        row@.len() == lp@.len(),
        sp_key@ == key_of(sp.name@),
    ensures
        match r {
            Some(j) => reusable_from(lp@, *sp, row@, 0) == Some(j as int),
            None => reusable_from(lp@, *sp, row@, 0) is None,
        },
{
    let n = lp.len();
    let mut j: usize = 0;
    while j < n
        invariant
            j <= n,
            n == lp@.len(),
            row@.len() == n,
            sp_key@ == key_of(sp.name@),
            reusable_from(lp@, *sp, row@, 0) == reusable_from(lp@, *sp, row@, j as int),
        decreases n - j,
    {
        let k = name_key(lp[j].name.as_str());
        let hit = (lp[j].id == sp.id || k == *sp_key) && lp[j].format_version == sp.format_version
            && lp[j].auto_headroom_enabled == sp.auto_headroom_enabled && row[j];
        if hit {
            return Some(j);
        }
        j = j + 1;
    }
    None
}

fn find_local_id<S>(lp: &Vec<EqualizerProfile<S>>, id: &String) -> (r: Option<usize>)
    ensures
        match r {
            Some(j) => local_with_id(lp@, id@, 0) == Some(j as int),
            None => local_with_id(lp@, id@, 0) is None,
        },
{
    let n = lp.len();
    let mut j: usize = 0;
    while j < n
        invariant
            j <= n,
            n == lp@.len(),
            local_with_id(lp@, id@, 0) == local_with_id(lp@, id@, j as int),
        decreases n - j,
    {
        if lp[j].id == *id {
            return Some(j);
        }
        j = j + 1;
    }
    None
}

proof fn lemma_local_with_id_found<S>(lp: Seq<EqualizerProfile<S>>, id: Seq<char>, j: int)
    ensures
        local_with_id(lp, id, j) matches Some(k) ==> 0 <= k < lp.len() && lp[k].id@ == id,
    decreases lp.len() - j,
{
    if 0 <= j < lp.len() && lp[j].id@ != id {
        lemma_local_with_id_found(lp, id, j + 1);
    }
}

proof fn lemma_reusable_found<S>(lp: Seq<EqualizerProfile<S>>, sp: EqualizerProfile<S>, row: Seq<bool>, j: int)
    ensures
        reusable_from(lp, sp, row, j) matches Some(k) ==> 0 <= k < lp.len(),
    decreases lp.len() - j,
{
    if 0 <= j < lp.len() {
        lemma_reusable_found(lp, sp, row, j + 1);
    }
}

fn pick_salt<S>(scope: &str, lp: &Vec<EqualizerProfile<S>>, sp: &EqualizerProfile<S>, row: &Vec<bool>, used: &Vec<String>) -> (r: Option<(String, bool)>)
    requires
        row@.len() == lp@.len(),
    ensures
        match r {
            Some((id, reused)) => salt_pick(scope@, lp@, *sp, row@, texts(used@), 0) == Some(
                (id@, reused),
            ),
            None => salt_pick(scope@, lp@, *sp, row@, texts(used@), 0) is None,
        },
{
    let mut salt: u32 = 0;
    loop
        invariant
            row@.len() == lp@.len(),
            salt_pick(scope@, lp@, *sp, row@, texts(used@), 0) == salt_pick(
                scope@,
                lp@,
                *sp,
                row@,
                texts(used@),
                salt as int,
            ),
        decreases u32::MAX - salt,
    {
        let c = recovery_profile_id(scope, sp.id.as_str(), salt);
        assert(c@ == recovery_id_text(scope@, sp.id@, salt));
        proof {
            lemma_local_with_id_found(lp@, c@, 0);
        }
        match find_local_id(lp, &c) {
            Some(j) => {
                if lp[j].format_version == sp.format_version && lp[j].auto_headroom_enabled
                    == sp.auto_headroom_enabled && row[j] {
                    return Some((c, true));
                }
            },
            None => {
                if !contains_key(used, &c) {
                    return Some((c, false));
                }
            },
        }
        if salt == u32::MAX {
            return None;
        }
        salt = salt + 1;
    }
}

fn pair_put_exec(m: &mut Vec<(String, String)>, k: &String, v: String)
    ensures
        pairs_view(final(m)@) == pair_put(pairs_view(old(m)@), k@, v@),
{
    let ghost pv = pairs_view(m@);
    assert(pv == pairs_view(old(m)@));
    let n = m.len();
    let mut i: usize = 0;
    while i < n
        invariant
            i <= n,
            n == m@.len(),
            pv == pairs_view(m@),
            pv == pairs_view(old(m)@),
            pair_index(pv, k@, 0) == pair_index(pv, k@, i as int),
        decreases n - i,
    {
        if m[i].0 == *k {
            assert(pv[i as int] == (m@[i as int].0@, m@[i as int].1@));
            assert(pair_index(pv, k@, i as int) == i as int);
            let key = m[i].0.clone();
            let ghost vv = v@;
            m.set(i, (key, v));
            assert(pairs_view(m@) =~= pv.update(i as int, (k@, vv)));
            assert(pair_put(pv, k@, vv) == pv.update(i as int, (k@, vv)));
            return;
        }
        i = i + 1;
    }
    let ghost vv = v@;
    m.push((k.clone(), v));
    assert(pairs_view(m@) =~= pv.push((k@, vv)));
}

fn pair_get_exec(m: &Vec<(String, String)>, k: &String) -> (r: Option<String>)
    ensures
        match r {
            Some(v) => pair_get(pairs_view(m@), k@) == Some(v@),
            None => pair_get(pairs_view(m@), k@) is None,
        },
{
    let ghost pv = pairs_view(m@);
    let n = m.len();
    let mut i: usize = 0;
    while i < n
        invariant
            i <= n,
            n == m@.len(),
            pv == pairs_view(m@),
            pair_index(pv, k@, 0) == pair_index(pv, k@, i as int),
        decreases n - i,
    {
        if m[i].0 == *k {
            assert(pv[i as int] == (m@[i as int].0@, m@[i as int].1@));
            return Some(m[i].1.clone());
        }
        i = i + 1;
    }
    None
}

pub open spec fn rows(same: Seq<Vec<bool>>) -> Seq<Seq<bool>> {
    same.map_values(|r: Vec<bool>| r@)
}

/// `p` is the local copy of server profile `sp` under `id` and `name`,
/// created at `now`, not yet on any server.
pub open spec fn recovered_profile<S: Clone>(p: EqualizerProfile<S>, sp: EqualizerProfile<S>, id: Seq<char>, name: Seq<char>, now: Seq<char>) -> bool {
    &&& p.id@ == id
    &&& p.name@ == name
    &&& p.format_version == sp.format_version
    &&& vstd::pervasive::cloned(sp.sound, p.sound)
    &&& p.auto_headroom_enabled == sp.auto_headroom_enabled
    &&& p.revision == Revision(0)
    &&& p.created_at@ == now
    &&& p.updated_at@ == now
}

/// Each copy is the recovered form of the server profile its entry names.
pub open spec fn copies_recovered<S: Clone>(
    copies: Seq<EqualizerProfile<S>>,
    entries: Seq<(int, Seq<char>, Seq<char>)>,
    sps: Seq<EqualizerProfile<S>>,
    now: Seq<char>,
) -> bool {
    &&& copies.len() == entries.len()
    &&& forall|k: int|
        0 <= k < copies.len() ==> 0 <= (#[trigger] entries[k]).0 < sps.len() && recovered_profile(
            copies[k],
            sps[entries[k].0],
            entries[k].1,
            entries[k].2,
            now,
        )
}

proof fn lemma_profiles_pass_fails_on<S>(
    scope: Seq<char>,
    lp: Seq<EqualizerProfile<S>>,
    sps: Seq<EqualizerProfile<S>>,
    same: Seq<Seq<bool>>,
    randoms: Seq<Seq<char>>,
    i: nat,
    k: nat,
)
    requires
        i <= k,
        !profiles_pass(scope, lp, sps, same, randoms, i).ok,
    ensures
        !profiles_pass(scope, lp, sps, same, randoms, k).ok,
    decreases k - i,
{
    if i < k {
        lemma_profiles_pass_fails_on(scope, lp, sps, same, randoms, i, (k - 1) as nat);
    }
}

fn owned_text(s: &str) -> (out: String)
    ensures
        out@ == s@,
{
    crate::text::string_from_chars(&crate::text::chars_of(s))
}

fn profile_ids_exec<S>(ps: &Vec<EqualizerProfile<S>>) -> (out: Vec<String>)
    ensures
        texts(out@) == profile_ids(ps@),
{
    let mut out: Vec<String> = Vec::new();
    let n = ps.len();
    for i in 0..n
        invariant
            n == ps@.len(),
            texts(out@) =~= profile_ids(ps@.take(i as int)),
    {
        out.push(ps[i].id.clone());
        assert(profile_ids(ps@.take(i + 1)) =~= profile_ids(ps@.take(i as int)).push(ps@[i as int].id@));
    }
    assert(ps@.take(n as int) =~= ps@);
    out
}

fn profile_keys_exec<S>(ps: &Vec<EqualizerProfile<S>>) -> (out: Vec<String>)
    ensures
        texts(out@) == profile_keys(ps@),
{
    let mut out: Vec<String> = Vec::new();
    let n = ps.len();
    for i in 0..n
        invariant
            n == ps@.len(),
            texts(out@) =~= profile_keys(ps@.take(i as int)),
    {
        out.push(name_key(ps[i].name.as_str()));
        assert(profile_keys(ps@.take(i + 1)) =~= profile_keys(ps@.take(i as int)).push(
            key_of(ps@[i as int].name@),
        ));
    }
    assert(ps@.take(n as int) =~= ps@);
    out
}

/// The profile pass over every server profile: whether it succeeded, the
/// server → local id map, and the profiles to copy.
fn profile_pass_exec<S: Clone>(
    scope: &str,
    local: &LocalEqualizerState<S>,
    synced: &EqualizerState<S>,
    same: &Vec<Vec<bool>>,
    randoms: &Vec<String>,
    now: &str,
) -> (r: (bool, Vec<(String, String)>, Vec<EqualizerProfile<S>>))
    requires
        same@.len() == synced.profiles@.len(),
        forall|i: int| 0 <= i < same@.len() ==> (#[trigger] same@[i])@.len() == local.profiles@.len(),
        randoms@.len() == synced.profiles@.len(),
    ensures
        ({
            let p = profiles_pass(
                scope@,
                local.profiles@,
                synced.profiles@,
                rows(same@),
                texts(randoms@),
                synced.profiles@.len(),
            );
            &&& r.0 == p.ok
            &&& p.ok ==> pairs_view(r.1@) == p.map
            &&& p.ok ==> copies_recovered(r.2@, p.added, synced.profiles@, now@)
        }),
{
    let ghost lp = local.profiles@;
    let ghost sps = synced.profiles@;
    let ghost sm = rows(same@);
    let ghost rn = texts(randoms@);
    let mut used_ids = profile_ids_exec(&local.profiles);
    let mut used_keys = profile_keys_exec(&local.profiles);
    let mut map: Vec<(String, String)> = Vec::new();
    let mut added: Vec<EqualizerProfile<S>> = Vec::new();
    assert(pairs_view(map@) =~= Seq::<(Seq<char>, Seq<char>)>::empty());
    let ghost mut ga: Seq<(int, Seq<char>, Seq<char>)> = Seq::empty();
    let n = synced.profiles.len();
    let mut i: usize = 0;
    while i < n
        invariant
            i <= n,
            n == sps.len(),
            lp == local.profiles@,
            sps == synced.profiles@,
            sm == rows(same@),
            rn == texts(randoms@),
            same@.len() == n,
            forall|t: int| 0 <= t < same@.len() ==> (#[trigger] same@[t])@.len() == lp.len(),
            randoms@.len() == n,
            profiles_pass(scope@, lp, sps, sm, rn, i as nat).ok,
            texts(used_ids@) == profiles_pass(scope@, lp, sps, sm, rn, i as nat).used_ids,
            texts(used_keys@) == profiles_pass(scope@, lp, sps, sm, rn, i as nat).used_keys,
            pairs_view(map@) == profiles_pass(scope@, lp, sps, sm, rn, i as nat).map,
            added@.len() == profiles_pass(scope@, lp, sps, sm, rn, i as nat).added.len(),
            ga == profiles_pass(scope@, lp, sps, sm, rn, i as nat).added,
            copies_recovered(added@, ga, sps, now@),
        decreases n - i,
    {
        let ghost acc = profiles_pass(scope@, lp, sps, sm, rn, i as nat);
        let ghost next = profiles_pass(scope@, lp, sps, sm, rn, (i + 1) as nat);
        assert(next == profile_step(scope@, lp, sps[i as int], sm[i as int], rn[i as int], i as int, acc));
        let sp = &synced.profiles[i];
        let row = &same[i];
        assert(sm[i as int] == row@);
        assert(rn[i as int] == randoms@[i as int]@);
        let sp_key = name_key(sp.name.as_str());
        proof {
            lemma_reusable_found(lp, *sp, row@, 0);
        }
        match find_reusable(&local.profiles, sp, &sp_key, row) {
            Some(j) => {
                let lid = local.profiles[j].id.clone();
                pair_put_exec(&mut map, &sp.id, lid);
                assert(next.added == ga);
            },
            None => {
                let pick = if !contains_key(&used_ids, &sp.id) {
                    Some((sp.id.clone(), false))
                } else {
                    pick_salt(scope, &local.profiles, sp, row, &used_ids)
                };
                match pick {
                    None => {
                        proof {
                            lemma_profiles_pass_fails_on(scope@, lp, sps, sm, rn, (i + 1) as nat, n as nat);
                        }
                        return (false, map, added);
                    },
                    Some((id, reused)) => {
                        if reused {
                            pair_put_exec(&mut map, &sp.id, id);
                            assert(next.added == ga);
                        } else {
                            let ghost keys0 = texts(used_keys@);
                            let name = match claim_recovery_name(sp.name.as_str(), &mut used_keys) {
                                Some(nm) => nm,
                                None => {
                                    match claim_random_recovery_name(randoms[i].as_str(), &mut used_keys) {
                                        Some(nm) => nm,
                                        None => {
                                            proof {
                                                lemma_profiles_pass_fails_on(
                                                    scope@,
                                                    lp,
                                                    sps,
                                                    sm,
                                                    rn,
                                                    (i + 1) as nat,
                                                    n as nat,
                                                );
                                            }
                                            return (false, map, added);
                                        },
                                    }
                                },
                            };
                            assert(texts(used_keys@) =~= keys0.push(key_of(name@)));
                            let ghost ids0 = used_ids@;
                            used_ids.push(id.clone());
                            assert(texts(used_ids@) =~= texts(ids0).push(id@));
                            pair_put_exec(&mut map, &sp.id, id.clone());
                            let ghost idv = id@;
                            let ghost nv = name@;
                            let p = EqualizerProfile {
                                id,
                                name,
                                format_version: sp.format_version,
                                sound: sp.sound.clone(),
                                auto_headroom_enabled: sp.auto_headroom_enabled,
                                revision: Revision(0),
                                created_at: owned_text(now),
                                updated_at: owned_text(now),
                            };
                            let ghost a0 = added@;
                            added.push(p);
                            assert(next.added == ga.push((i as int, idv, nv)));
                            proof {
                                ga = ga.push((i as int, idv, nv));
                            }
                        }
                    },
                }
            },
        }
        i = i + 1;
    }
    (true, map, added)
}


/// Local rule `l` already carries server rule `sr` with its action turned
/// into `action` (the profile it applies after remapping, or none).
pub open spec fn rule_matches(l: EqualizerDeviceRule, sr: EqualizerDeviceRule, action: Option<Seq<char>>) -> bool {
    &&& l.label@ == sr.label@
    &&& l.action.profile_id_spec() == action
    &&& l.selectors@.len() == sr.selectors@.len()
    &&& forall|k: int|
        0 <= k < l.selectors@.len() ==> same_selector_spec(#[trigger] l.selectors@[k], sr.selectors@[k])
    &&& l.enabled == sr.enabled
}

/// The first local rule, from `j` on, that matches.
pub open spec fn rule_reusable_from(lr: Seq<EqualizerDeviceRule>, sr: EqualizerDeviceRule, action: Option<Seq<char>>, j: int) -> Option<int>
    decreases lr.len() - j,
{
    if j < 0 || j >= lr.len() {
        None
    } else if rule_matches(lr[j], sr, action) {
        Some(j)
    } else {
        rule_reusable_from(lr, sr, action, j + 1)
    }
}

/// The action of a server rule on this device: a profile rule follows the
/// profile map and is dropped (`None`) when its profile has no place.
pub open spec fn remapped_action(pm: Seq<(Seq<char>, Seq<char>)>, sr: EqualizerDeviceRule) -> Option<Option<Seq<char>>> {
    match sr.action.profile_id_spec() {
        None => Some(None),
        Some(pid) => match pair_get(pm, pid) {
            None => None,
            Some(m) => Some(Some(m)),
        },
    }
}

/// The priority the rule at `index` of the server list gets.
pub open spec fn recovered_priority(index: int) -> int {
    i32::MAX - index
}

/// Where the rule pass stands: rule ids in use, the server → local rule
/// map, the priorities to set on reused local rules, the rules to copy
/// (server index, new id, action), and whether every copy found an id.
pub struct RulePass {
    pub used: Seq<Seq<char>>,
    pub map: Seq<(Seq<char>, Seq<char>)>,
    pub updates: Seq<(Seq<char>, int)>,
    pub added: Seq<(int, Seq<char>, Option<Seq<char>>)>,
    pub ok: bool,
}

/// One server rule: drop it when its profile is gone; reuse a matching
/// local rule (and raise it to the rule's priority); else copy it under
/// its own id when free, or under `fresh`.
pub open spec fn rule_step(
    pm: Seq<(Seq<char>, Seq<char>)>,
    lr: Seq<EqualizerDeviceRule>,
    sr: EqualizerDeviceRule,
    fresh: Seq<char>,
    i: int,
    acc: RulePass,
) -> RulePass {
    if !acc.ok {
        acc
    } else {
        match remapped_action(pm, sr) {
            None => acc,
            Some(a) => match rule_reusable_from(lr, sr, a, 0) {
                Some(j) => RulePass {
                    map: pair_put(acc.map, sr.id@, lr[j].id@),
                    updates: acc.updates.push((lr[j].id@, recovered_priority(i))),
                    ..acc
                },
                None => {
                    let id = if !acc.used.contains(sr.id@) {
                        Some(sr.id@)
                    } else if !acc.used.contains(fresh) {
                        Some(fresh)
                    } else {
                        None
                    };
                    match id {
                        None => RulePass { ok: false, ..acc },
                        Some(id) => RulePass {
                            used: acc.used.push(id),
                            map: pair_put(acc.map, sr.id@, id),
                            added: acc.added.push((i, id, a)),
                            ..acc
                        },
                    }
                },
            },
        }
    }
}

pub open spec fn rule_ids(rs: Seq<EqualizerDeviceRule>) -> Seq<Seq<char>> {
    rs.map_values(|r: EqualizerDeviceRule| r.id@)
}

/// The rule pass over the first `k` server rules.
pub open spec fn rules_pass(
    pm: Seq<(Seq<char>, Seq<char>)>,
    lr: Seq<EqualizerDeviceRule>,
    srs: Seq<EqualizerDeviceRule>,
    fresh: Seq<Seq<char>>,
    k: nat,
) -> RulePass
    decreases k,
{
    if k == 0 {
        RulePass { used: rule_ids(lr), map: Seq::empty(), updates: Seq::empty(), added: Seq::empty(), ok: true }
    } else {
        rule_step(pm, lr, srs[k - 1], fresh[k - 1], k - 1, rules_pass(pm, lr, srs, fresh, (k - 1) as nat))
    }
}

/// `r` is the local copy of server rule `sr` under `id`, applying `action`,
/// at `priority`, not yet on any server.
pub open spec fn recovered_rule(r: EqualizerDeviceRule, sr: EqualizerDeviceRule, id: Seq<char>, action: Option<Seq<char>>, priority: int) -> bool {
    &&& r.id@ == id
    &&& r.label@ == sr.label@
    &&& r.action.profile_id_spec() == action
    &&& r.selectors@.len() == sr.selectors@.len()
    &&& forall|k: int|
        0 <= k < r.selectors@.len() ==> vstd::pervasive::cloned(sr.selectors@[k], #[trigger] r.selectors@[k])
    &&& r.priority == priority
    &&& r.enabled == sr.enabled
    &&& r.revision == Revision(0)
}

/// Each copy is the recovered form of the server rule its entry names.
pub open spec fn rules_recovered(
    copies: Seq<EqualizerDeviceRule>,
    entries: Seq<(int, Seq<char>, Option<Seq<char>>)>,
    srs: Seq<EqualizerDeviceRule>,
) -> bool {
    &&& copies.len() == entries.len()
    &&& forall|k: int|
        0 <= k < copies.len() ==> 0 <= (#[trigger] entries[k]).0 < srs.len() && recovered_rule(
            copies[k],
            srs[entries[k].0],
            entries[k].1,
            entries[k].2,
            recovered_priority(entries[k].0),
        )
}

pub open spec fn updates_view(u: Seq<(String, i32)>) -> Seq<(Seq<char>, int)> {
    u.map_values(|p: (String, i32)| (p.0@, p.1 as int))
}

fn find_rule_match(lr: &Vec<EqualizerDeviceRule>, sr: &EqualizerDeviceRule, action: &RuleAction) -> (r: Option<usize>)
    ensures
        match r {
            Some(j) => rule_reusable_from(lr@, *sr, action.profile_id_spec(), 0) == Some(j as int)
                && j < lr@.len(),
            None => rule_reusable_from(lr@, *sr, action.profile_id_spec(), 0) is None,
        },
{
    let ghost a = action.profile_id_spec();
    let n = lr.len();
    let mut j: usize = 0;
    while j < n
        invariant
            j <= n,
            n == lr@.len(),
            a == action.profile_id_spec(),
            rule_reusable_from(lr@, *sr, a, 0) == rule_reusable_from(lr@, *sr, a, j as int),
        decreases n - j,
    {
        let l = &lr[j];
        let mut hit = l.label == sr.label && same_action(&l.action, action) && l.enabled == sr.enabled
            && l.selectors.len() == sr.selectors.len();
        if hit {
            let m = l.selectors.len();
            let mut k: usize = 0;
            while k < m
                invariant
                    k <= m,
                    m == l.selectors@.len(),
                    m == sr.selectors@.len(),
                    hit ==> forall|t: int| 0 <= t < k ==> same_selector_spec(#[trigger] l.selectors@[t], sr.selectors@[t]),
                    !hit ==> !rule_matches(*l, *sr, a),
                decreases m - k,
            {
                if hit && !same_selector(&l.selectors[k], &sr.selectors[k]) {
                    hit = false;
                }
                k = k + 1;
            }
        }
        if hit {
            return Some(j);
        }
        j = j + 1;
    }
    None
}


proof fn lemma_rules_pass_fails_on(
    pm: Seq<(Seq<char>, Seq<char>)>,
    lr: Seq<EqualizerDeviceRule>,
    srs: Seq<EqualizerDeviceRule>,
    fresh: Seq<Seq<char>>,
    i: nat,
    k: nat,
)
    requires
        i <= k,
        !rules_pass(pm, lr, srs, fresh, i).ok,
    ensures
        !rules_pass(pm, lr, srs, fresh, k).ok,
    decreases k - i,
{
    if i < k {
        lemma_rules_pass_fails_on(pm, lr, srs, fresh, i, (k - 1) as nat);
    }
}

fn rule_ids_exec(rs: &Vec<EqualizerDeviceRule>) -> (out: Vec<String>)
    ensures
        texts(out@) == rule_ids(rs@),
{
    let mut out: Vec<String> = Vec::new();
    let n = rs.len();
    for i in 0..n
        invariant
            n == rs@.len(),
            texts(out@) =~= rule_ids(rs@.take(i as int)),
    {
        out.push(rs[i].id.clone());
        assert(rule_ids(rs@.take(i + 1)) =~= rule_ids(rs@.take(i as int)).push(rs@[i as int].id@));
    }
    assert(rs@.take(n as int) =~= rs@);
    out
}

/// The rule pass over every server rule: whether it succeeded, the server →
/// local rule map, the priority updates and the rules to copy.
fn rule_pass_exec(
    pm: &Vec<(String, String)>,
    local_rules: &Vec<EqualizerDeviceRule>,
    server_rules: &Vec<EqualizerDeviceRule>,
    fresh: &Vec<String>,
) -> (r: (bool, Vec<(String, String)>, Vec<(String, i32)>, Vec<EqualizerDeviceRule>))
    requires
        server_rules@.len() <= i32::MAX,
        fresh@.len() == server_rules@.len(),
    ensures
        ({
            let p = rules_pass(
                pairs_view(pm@),
                local_rules@,
                server_rules@,
                texts(fresh@),
                server_rules@.len(),
            );
            &&& r.0 == p.ok
            &&& p.ok ==> pairs_view(r.1@) == p.map
            &&& p.ok ==> updates_view(r.2@) == p.updates
            &&& p.ok ==> rules_recovered(r.3@, p.added, server_rules@)
        }),
{
    let ghost pmv = pairs_view(pm@);
    let ghost lr = local_rules@;
    let ghost srs = server_rules@;
    let ghost fr = texts(fresh@);
    let mut used = rule_ids_exec(local_rules);
    let mut map: Vec<(String, String)> = Vec::new();
    let mut updates: Vec<(String, i32)> = Vec::new();
    let mut added: Vec<EqualizerDeviceRule> = Vec::new();
    let ghost mut ga: Seq<(int, Seq<char>, Option<Seq<char>>)> = Seq::empty();
    assert(pairs_view(map@) =~= Seq::<(Seq<char>, Seq<char>)>::empty());
    assert(updates_view(updates@) =~= Seq::<(Seq<char>, int)>::empty());
    let n = server_rules.len();
    let mut i: usize = 0;
    while i < n
        invariant
            i <= n,
            n == srs.len(),
            n <= i32::MAX,
            pmv == pairs_view(pm@),
            lr == local_rules@,
            srs == server_rules@,
            fr == texts(fresh@),
            fresh@.len() == n,
            rules_pass(pmv, lr, srs, fr, i as nat).ok,
            texts(used@) == rules_pass(pmv, lr, srs, fr, i as nat).used,
            pairs_view(map@) == rules_pass(pmv, lr, srs, fr, i as nat).map,
            updates_view(updates@) == rules_pass(pmv, lr, srs, fr, i as nat).updates,
            ga == rules_pass(pmv, lr, srs, fr, i as nat).added,
            rules_recovered(added@, ga, srs),
        decreases n - i,
    {
        let ghost acc = rules_pass(pmv, lr, srs, fr, i as nat);
        let ghost next = rules_pass(pmv, lr, srs, fr, (i + 1) as nat);
        assert(next == rule_step(pmv, lr, srs[i as int], fr[i as int], i as int, acc));
        let sr = &server_rules[i];
        assert(fr[i as int] == fresh@[i as int]@);
        let action = match &sr.action {
            RuleAction::Profile { profile_id } => match pair_get_exec(pm, profile_id) {
                Some(m) => Some(RuleAction::Profile { profile_id: m }),
                None => None,
            },
            RuleAction::Bypass => Some(RuleAction::Bypass),
        };
        match action {
            None => {
                assert(next == acc);
            },
            Some(action) => {
                assert(remapped_action(pmv, *sr) == Some(action.profile_id_spec()));
                let ii: i32 = i as i32;
                let priority: i32 = i32::MAX - ii;
                assert(priority == recovered_priority(i as int));
                match find_rule_match(local_rules, sr, &action) {
                    Some(j) => {
                        let lid = local_rules[j].id.clone();
                        let ghost u0 = updates@;
                        updates.push((local_rules[j].id.clone(), priority));
                        assert(updates_view(updates@) =~= updates_view(u0).push((lr[j as int].id@, priority as int)));
                        pair_put_exec(&mut map, &sr.id, lid);
                    },
                    None => {
                        let id = if !contains_key(&used, &sr.id) {
                            sr.id.clone()
                        } else if !contains_key(&used, &fresh[i]) {
                            fresh[i].clone()
                        } else {
                            proof {
                                lemma_rules_pass_fails_on(pmv, lr, srs, fr, (i + 1) as nat, n as nat);
                            }
                            return (false, map, updates, added);
                        };
                        let ghost ids0 = used@;
                        used.push(id.clone());
                        assert(texts(used@) =~= texts(ids0).push(id@));
                        pair_put_exec(&mut map, &sr.id, id.clone());
                        let ghost idv = id@;
                        let ghost av = action.profile_id_spec();
                        let rule = EqualizerDeviceRule {
                            id,
                            label: sr.label.clone(),
                            action,
                            selectors: sr.selectors.clone(),
                            priority,
                            enabled: sr.enabled,
                            revision: Revision(0),
                        };
                        added.push(rule);
                        assert(next.added == ga.push((i as int, idv, av)));
                        proof {
                            ga = ga.push((i as int, idv, av));
                        }
                    },
                }
            },
        }
        i = i + 1;
    }
    (true, map, updates, added)
}


/// What preserving a server snapshot on this device writes: the profiles
/// and rules to insert, the new priorities of reused local rules, the new
/// local default, and the old → new id maps.
#[derive(Debug)]
pub struct RecoveryPlan<S> {
    pub profiles: Vec<EqualizerProfile<S>>,
    pub rules: Vec<EqualizerDeviceRule>,
    pub rule_priorities: Vec<(String, i32)>,
    pub default_profile_id: Option<String>,
    pub recovery_map: EqualizerRecoveryMap,
}

/// Both passes find a place for everything, given the sound comparisons,
/// the random recovery names and the fresh rule ids.
pub open spec fn plan_ok<S>(
    scope: Seq<char>,
    local: LocalEqualizerState<S>,
    synced: EqualizerState<S>,
    same: Seq<Seq<bool>>,
    random_names: Seq<Seq<char>>,
    fresh_ids: Seq<Seq<char>>,
) -> bool {
    let pp = profiles_pass(scope, local.profiles@, synced.profiles@, same, random_names, synced.profiles@.len());
    let rp = rules_pass(pp.map, local.device_rules@, synced.device_rules@, fresh_ids, synced.device_rules@.len());
    pp.ok && rp.ok
}

/// `plan` is the preservation of `synced` over `local`: profiles reused or
/// copied as the profile pass says, rules remapped, reused or copied as the
/// rule pass says, and the server default followed through the profile map.
pub open spec fn is_preservation_plan<S: Clone>(
    plan: RecoveryPlan<S>,
    scope: Seq<char>,
    local: LocalEqualizerState<S>,
    synced: EqualizerState<S>,
    same: Seq<Seq<bool>>,
    random_names: Seq<Seq<char>>,
    fresh_ids: Seq<Seq<char>>,
    now: Seq<char>,
) -> bool {
    let pp = profiles_pass(scope, local.profiles@, synced.profiles@, same, random_names, synced.profiles@.len());
    let rp = rules_pass(pp.map, local.device_rules@, synced.device_rules@, fresh_ids, synced.device_rules@.len());
    &&& copies_recovered(plan.profiles@, pp.added, synced.profiles@, now)
    &&& rules_recovered(plan.rules@, rp.added, synced.device_rules@)
    &&& updates_view(plan.rule_priorities@) == rp.updates
    &&& pairs_view(plan.recovery_map.profile_ids@) == pp.map
    &&& pairs_view(plan.recovery_map.rule_ids@) == rp.map
    &&& opt_text(plan.default_profile_id) == match synced.default_profile_id {
        Some(d) => pair_get(pp.map, d@),
        None => None,
    }
}

/// The preservation plan for fixed random inputs: `same[i][j]` says whether
/// server profile `i` and local profile `j` sound the same,
/// `random_names[i]` is the random suffix a copy of server profile `i`
/// falls back on, and `fresh_ids[i]` the id a copy of server rule `i` takes
/// when its own is in use. `None` exactly when some copy finds no free id
/// or name.
pub fn plan_preservation_with<S: Clone>(
    scope: &str,
    local: &LocalEqualizerState<S>,
    synced: &EqualizerState<S>,
    same: &Vec<Vec<bool>>,
    random_names: &Vec<String>,
    fresh_ids: &Vec<String>,
    now: &str,
) -> (r: Option<RecoveryPlan<S>>)
    requires
        same@.len() == synced.profiles@.len(),
        forall|i: int| 0 <= i < same@.len() ==> (#[trigger] same@[i])@.len() == local.profiles@.len(),
        random_names@.len() == synced.profiles@.len(),
        fresh_ids@.len() == synced.device_rules@.len(),
        synced.device_rules@.len() <= i32::MAX,
    ensures
        r is Some <==> plan_ok(scope@, *local, *synced, rows(same@), texts(random_names@), texts(fresh_ids@)),
        r matches Some(p) ==> is_preservation_plan(
            p,
            scope@,
            *local,
            *synced,
            rows(same@),
            texts(random_names@),
            texts(fresh_ids@),
            now@,
        ),
{
    let (ok, profile_map, profiles) = profile_pass_exec(scope, local, synced, same, random_names, now);
    if !ok {
        return None;
    }
    let (rules_ok, rule_map, rule_priorities, rules) = rule_pass_exec(
        &profile_map,
        &local.device_rules,
        &synced.device_rules,
        fresh_ids,
    );
    if !rules_ok {
        return None;
    }
    let default_profile_id = match &synced.default_profile_id {
        Some(d) => pair_get_exec(&profile_map, d),
        None => None,
    };
    Some(
        RecoveryPlan {
            profiles,
            rules,
            rule_priorities,
            default_profile_id,
            recovery_map: EqualizerRecoveryMap { profile_ids: profile_map, rule_ids: rule_map },
        },
    )
}

/// A random UUID, hyphenated: 36 characters.
pub open spec fn is_hyphenated_shape(t: Seq<char>) -> bool {
    &&& t.len() == 36
    &&& forall|i: int|
        0 <= i < 36 ==> if i == 8 || i == 13 || i == 18 || i == 23 {
            #[trigger] t[i] == '-'
        } else {
            crate::hashing::is_lower_hex(t[i])
        }
}

/// `uuid::Uuid::new_v4()` displayed: a random UUID in lowercase hyphenated
/// form. Claimed: its shape; which digits is chance.
#[verifier::external_body]
fn random_uuid_hyphenated() -> (r: String)
    ensures
        is_hyphenated_shape(r@),
{
    uuid::Uuid::new_v4().to_string()
}

/// Every entry is a drawn simple-form UUID.
pub open spec fn all_simple_shaped(v: Seq<Seq<char>>) -> bool {
    forall|i: int| 0 <= i < v.len() ==> crate::hashing::is_simple_uuid_shape(#[trigger] v[i])
}

/// Every entry is a drawn hyphenated UUID.
pub open spec fn all_hyphenated_shaped(v: Seq<Seq<char>>) -> bool {
    forall|i: int| 0 <= i < v.len() ==> is_hyphenated_shape(#[trigger] v[i])
}

/// Draw a random recovery-name suffix per server profile and a fresh id per
/// server rule.
fn draw_randoms(np: usize, nr: usize) -> (r: (Vec<String>, Vec<String>))
    ensures
        r.0@.len() == np,
        r.1@.len() == nr,
        all_simple_shaped(texts(r.0@)),
        all_hyphenated_shaped(texts(r.1@)),
{
    let mut names: Vec<String> = Vec::new();
    for i in 0..np
        invariant
            names@.len() == i,
            all_simple_shaped(texts(names@)),
    {
        let d = crate::hashing::random_uuid_simple();
        let ghost before = names@;
        names.push(d);
        assert(texts(names@) =~= texts(before).push(d@));
    }
    let mut ids: Vec<String> = Vec::new();
    for i in 0..nr
        invariant
            ids@.len() == i,
            all_hyphenated_shaped(texts(ids@)),
    {
        let d = random_uuid_hyphenated();
        let ghost before = ids@;
        ids.push(d);
        assert(texts(ids@) =~= texts(before).push(d@));
    }
    (names, ids)
}

/// Preserve the acknowledged server snapshot `synced` over the device's
/// own state `local`, with `same[i][j]` saying whether server profile `i`
/// and local profile `j` sound the same. Random recovery names and fresh
/// rule ids are drawn, and drawn again while they collide; the result is
/// the plan for the values last drawn, `None` when every one of the
/// (2^64 - 1) draws collided (or no salt gives a free profile id).
pub fn plan_preservation<S: Clone>(
    scope: &str,
    local: &LocalEqualizerState<S>,
    synced: &EqualizerState<S>,
    same: &Vec<Vec<bool>>,
    now: &str,
) -> (r: Option<RecoveryPlan<S>>)
    requires
        same@.len() == synced.profiles@.len(),
        forall|i: int| 0 <= i < same@.len() ==> (#[trigger] same@[i])@.len() == local.profiles@.len(),
        synced.device_rules@.len() <= i32::MAX,
    ensures
        exists|rn: Seq<Seq<char>>, fr: Seq<Seq<char>>|
            rn.len() == synced.profiles@.len() && fr.len() == synced.device_rules@.len()
                && all_simple_shaped(rn) && all_hyphenated_shaped(fr) && (r is Some <==> plan_ok(
                scope@,
                *local,
                *synced,
                rows(same@),
                rn,
                fr,
            )) && (r matches Some(p) ==> is_preservation_plan(
                p,
                scope@,
                *local,
                *synced,
                rows(same@),
                rn,
                fr,
                now@,
            )),
{
    let np = synced.profiles.len();
    let nr = synced.device_rules.len();
    let ghost mut last_rn: Seq<Seq<char>> = Seq::empty();
    let ghost mut last_fr: Seq<Seq<char>> = Seq::empty();
    let mut attempt: u64 = 0;
    while attempt < u64::MAX
        invariant
            np == synced.profiles@.len(),
            nr == synced.device_rules@.len(),
            same@.len() == synced.profiles@.len(),
            forall|i: int| 0 <= i < same@.len() ==> (#[trigger] same@[i])@.len() == local.profiles@.len(),
            synced.device_rules@.len() <= i32::MAX,
            attempt > 0 ==> last_rn.len() == np && last_fr.len() == nr && all_simple_shaped(last_rn)
                && all_hyphenated_shaped(last_fr) && !plan_ok(
                scope@,
                *local,
                *synced,
                rows(same@),
                last_rn,
                last_fr,
            ),
        decreases u64::MAX - attempt,
    {
        let (names, ids) = draw_randoms(np, nr);
        let r = plan_preservation_with(scope, local, synced, same, &names, &ids, now);
        if r.is_some() {
            return r;
        }
        proof {
            last_rn = texts(names@);
            last_fr = texts(ids@);
        }
        attempt = attempt + 1;
    }
    None
}

/// The ids given to copied profiles.
pub open spec fn added_profile_ids(added: Seq<(int, Seq<char>, Seq<char>)>) -> Seq<Seq<char>> {
    added.map_values(|e: (int, Seq<char>, Seq<char>)| e.1)
}

proof fn lemma_salt_pick_fresh<S>(
    scope: Seq<char>,
    lp: Seq<EqualizerProfile<S>>,
    sp: EqualizerProfile<S>,
    row: Seq<bool>,
    used: Seq<Seq<char>>,
    salt: int,
)
    ensures
        salt_pick(scope, lp, sp, row, used, salt) matches Some((c, reused)) ==> (!reused
            ==> !used.contains(c)),
    decreases u32::MAX - salt,
{
    if 0 <= salt < u32::MAX {
        lemma_salt_pick_fresh(scope, lp, sp, row, used, salt + 1);
    }
}

proof fn lemma_profiles_pass_used<S>(
    scope: Seq<char>,
    lp: Seq<EqualizerProfile<S>>,
    sps: Seq<EqualizerProfile<S>>,
    same: Seq<Seq<bool>>,
    randoms: Seq<Seq<char>>,
    k: nat,
)
    ensures
        ({
            let p = profiles_pass(scope, lp, sps, same, randoms, k);
            &&& p.used_ids == profile_ids(lp) + added_profile_ids(p.added)
            &&& forall|a: int, b: int|
                0 <= a < b < p.added.len() ==> (#[trigger] p.added[a]).1 != (#[trigger] p.added[b]).1
            &&& forall|a: int|
                0 <= a < p.added.len() ==> !profile_ids(lp).contains((#[trigger] p.added[a]).1)
        }),
    decreases k,
{
    if k == 0 {
        assert(added_profile_ids(Seq::<(int, Seq<char>, Seq<char>)>::empty()) =~= Seq::<Seq<char>>::empty());
        assert(profile_ids(lp) + Seq::<Seq<char>>::empty() =~= profile_ids(lp));
    } else {
        let k1 = (k - 1) as nat;
        lemma_profiles_pass_used(scope, lp, sps, same, randoms, k1);
        let acc = profiles_pass(scope, lp, sps, same, randoms, k1);
        let sp = sps[k1 as int];
        lemma_salt_pick_fresh(scope, lp, sp, same[k1 as int], acc.used_ids, 0);
        let p = profiles_pass(scope, lp, sps, same, randoms, k);
        if p.added.len() != acc.added.len() {
            let id = p.added.last().1;
            assert(p.added == acc.added.push(p.added.last()));
            assert(!acc.used_ids.contains(id));
            assert(p.used_ids == acc.used_ids.push(id));
            assert(added_profile_ids(p.added) =~= added_profile_ids(acc.added).push(id));
            assert(p.used_ids =~= profile_ids(lp) + added_profile_ids(p.added));
            assert forall|a: int| 0 <= a < acc.added.len() implies (#[trigger] acc.added[a]).1 != id by {
                assert(acc.used_ids[profile_ids(lp).len() + a] == acc.added[a].1);
            }
            assert forall|a: int| 0 <= a < p.added.len() implies !profile_ids(lp).contains(
                (#[trigger] p.added[a]).1,
            ) by {
                if a == acc.added.len() {
                    if profile_ids(lp).contains(id) {
                        let t = choose|t: int| 0 <= t < profile_ids(lp).len() && profile_ids(lp)[t] == id;
                        assert(acc.used_ids[t] == id);
                    }
                }
            }
        } else {
            assert(p.added == acc.added);
            assert(p.used_ids == acc.used_ids);
        }
    }
}

/// A preservation never gives a copied profile the id of a profile the
/// device already has, nor two copies the same id.
pub proof fn law_recovered_profile_ids_are_fresh<S>(
    scope: Seq<char>,
    lp: Seq<EqualizerProfile<S>>,
    sps: Seq<EqualizerProfile<S>>,
    same: Seq<Seq<bool>>,
    randoms: Seq<Seq<char>>,
)
    ensures
        ({
            let p = profiles_pass(scope, lp, sps, same, randoms, sps.len());
            &&& forall|a: int, b: int|
                0 <= a < b < p.added.len() ==> (#[trigger] p.added[a]).1 != (#[trigger] p.added[b]).1
            &&& forall|a: int, t: int|
                0 <= a < p.added.len() && 0 <= t < lp.len() ==> (#[trigger] p.added[a]).1
                    != (#[trigger] lp[t]).id@
        }),
{
    lemma_profiles_pass_used(scope, lp, sps, same, randoms, sps.len());
    let p = profiles_pass(scope, lp, sps, same, randoms, sps.len());
    assert forall|a: int, t: int| 0 <= a < p.added.len() && 0 <= t < lp.len() implies (
    #[trigger] p.added[a]).1 != (#[trigger] lp[t]).id@ by {
        assert(profile_ids(lp)[t] == lp[t].id@);
    }
}


/// The ids given to copied rules.
pub open spec fn added_rule_ids(added: Seq<(int, Seq<char>, Option<Seq<char>>)>) -> Seq<Seq<char>> {
    added.map_values(|e: (int, Seq<char>, Option<Seq<char>>)| e.1)
}

proof fn lemma_rules_pass_used(
    pm: Seq<(Seq<char>, Seq<char>)>,
    lr: Seq<EqualizerDeviceRule>,
    srs: Seq<EqualizerDeviceRule>,
    fresh: Seq<Seq<char>>,
    k: nat,
)
    ensures
        ({
            let p = rules_pass(pm, lr, srs, fresh, k);
            &&& p.used == rule_ids(lr) + added_rule_ids(p.added)
            &&& forall|a: int, b: int|
                0 <= a < b < p.added.len() ==> (#[trigger] p.added[a]).1 != (#[trigger] p.added[b]).1
            &&& forall|a: int|
                0 <= a < p.added.len() ==> !rule_ids(lr).contains((#[trigger] p.added[a]).1)
        }),
    decreases k,
{
    if k == 0 {
        assert(added_rule_ids(Seq::<(int, Seq<char>, Option<Seq<char>>)>::empty()) =~= Seq::<Seq<char>>::empty());
        assert(rule_ids(lr) + Seq::<Seq<char>>::empty() =~= rule_ids(lr));
    } else {
        let k1 = (k - 1) as nat;
        lemma_rules_pass_used(pm, lr, srs, fresh, k1);
        let acc = rules_pass(pm, lr, srs, fresh, k1);
        let p = rules_pass(pm, lr, srs, fresh, k);
        if p.added.len() != acc.added.len() {
            let id = p.added.last().1;
            assert(p.added == acc.added.push(p.added.last()));
            assert(!acc.used.contains(id));
            assert(p.used == acc.used.push(id));
            assert(added_rule_ids(p.added) =~= added_rule_ids(acc.added).push(id));
            assert(p.used =~= rule_ids(lr) + added_rule_ids(p.added));
            assert forall|a: int| 0 <= a < acc.added.len() implies (#[trigger] acc.added[a]).1 != id by {
                assert(acc.used[rule_ids(lr).len() + a] == acc.added[a].1);
            }
            assert forall|a: int| 0 <= a < p.added.len() implies !rule_ids(lr).contains(
                (#[trigger] p.added[a]).1,
            ) by {
                if a == acc.added.len() {
                    if rule_ids(lr).contains(id) {
                        let t = choose|t: int| 0 <= t < rule_ids(lr).len() && rule_ids(lr)[t] == id;
                        assert(acc.used[t] == id);
                    }
                }
            }
        } else {
            assert(p.added == acc.added);
            assert(p.used == acc.used);
        }
    }
}

/// A preservation never gives a copied rule the id of a rule the device
/// already has, nor two copies the same id.
pub proof fn law_recovered_rule_ids_are_fresh(
    pm: Seq<(Seq<char>, Seq<char>)>,
    lr: Seq<EqualizerDeviceRule>,
    srs: Seq<EqualizerDeviceRule>,
    fresh: Seq<Seq<char>>,
)
    ensures
        ({
            let p = rules_pass(pm, lr, srs, fresh, srs.len());
            &&& forall|a: int, b: int|
                0 <= a < b < p.added.len() ==> (#[trigger] p.added[a]).1 != (#[trigger] p.added[b]).1
            &&& forall|a: int, t: int|
                0 <= a < p.added.len() && 0 <= t < lr.len() ==> (#[trigger] p.added[a]).1
                    != (#[trigger] lr[t]).id@
        }),
{
    lemma_rules_pass_used(pm, lr, srs, fresh, srs.len());
    let p = rules_pass(pm, lr, srs, fresh, srs.len());
    assert forall|a: int, t: int| 0 <= a < p.added.len() && 0 <= t < lr.len() implies (
    #[trigger] p.added[a]).1 != (#[trigger] lr[t]).id@ by {
        assert(rule_ids(lr)[t] == lr[t].id@);
    }
}


/// `k` is a key of the pairs.
pub open spec fn has_key(m: Seq<(Seq<char>, Seq<char>)>, k: Seq<char>) -> bool {
    exists|j: int| 0 <= j < m.len() && (#[trigger] m[j]).0 == k
}

proof fn lemma_pair_index_finds(m: Seq<(Seq<char>, Seq<char>)>, k: Seq<char>, i: int)
    requires
        0 <= i,
    ensures
        pair_index(m, k, i) >= 0 <==> exists|j: int| i <= j < m.len() && (#[trigger] m[j]).0 == k,
        pair_index(m, k, i) >= 0 ==> i <= pair_index(m, k, i) < m.len() && m[pair_index(m, k, i)].0 == k,
    decreases m.len() - i,
{
    if i < m.len() {
        lemma_pair_index_finds(m, k, i + 1);
        if m[i].0 != k {
            assert forall|j: int| i <= j < m.len() && (#[trigger] m[j]).0 == k implies i + 1 <= j by {}
        }
    }
}

proof fn lemma_pair_put_keys(m: Seq<(Seq<char>, Seq<char>)>, k: Seq<char>, v: Seq<char>, k2: Seq<char>)
    ensures
        has_key(pair_put(m, k, v), k),
        has_key(m, k2) ==> has_key(pair_put(m, k, v), k2),
{
    lemma_pair_index_finds(m, k, 0);
    let r = pair_put(m, k, v);
    let i = pair_index(m, k, 0);
    if i >= 0 {
        assert(r[i].0 == k);
        if has_key(m, k2) {
            let j = choose|j: int| 0 <= j < m.len() && (#[trigger] m[j]).0 == k2;
            assert(r[j].0 == k2);
        }
    } else {
        assert(r[m.len() as int].0 == k);
        if has_key(m, k2) {
            let j = choose|j: int| 0 <= j < m.len() && (#[trigger] m[j]).0 == k2;
            assert(r[j].0 == k2);
        }
    }
}

proof fn lemma_profiles_pass_places<S>(
    scope: Seq<char>,
    lp: Seq<EqualizerProfile<S>>,
    sps: Seq<EqualizerProfile<S>>,
    same: Seq<Seq<bool>>,
    randoms: Seq<Seq<char>>,
    k: nat,
)
    requires
        k <= sps.len(),
    ensures
        ({
            let p = profiles_pass(scope, lp, sps, same, randoms, k);
            p.ok ==> forall|i: int| 0 <= i < k ==> has_key(p.map, (#[trigger] sps[i]).id@)
        }),
    decreases k,
{
    if k > 0 {
        let k1 = (k - 1) as nat;
        lemma_profiles_pass_places(scope, lp, sps, same, randoms, k1);
        let acc = profiles_pass(scope, lp, sps, same, randoms, k1);
        let p = profiles_pass(scope, lp, sps, same, randoms, k);
        if p.ok {
            assert(acc.ok);
            let sp = sps[k1 as int];
            assert forall|i: int| 0 <= i < k implies has_key(p.map, (#[trigger] sps[i]).id@) by {
                match reusable_from(lp, sp, same[k1 as int], 0) {
                    Some(j) => {
                        lemma_pair_put_keys(acc.map, sp.id@, lp[j].id@, sps[i].id@);
                    },
                    None => {
                        let pick = if !acc.used_ids.contains(sp.id@) {
                            Some((sp.id@, false))
                        } else {
                            salt_pick(scope, lp, sp, same[k1 as int], acc.used_ids, 0)
                        };
                        let (id, reused) = pick.unwrap();
                        lemma_pair_put_keys(acc.map, sp.id@, id, sps[i].id@);
                    },
                }
            }
        }
    }
}

/// When a preservation succeeds, every server profile has a place on the
/// device: its id is in the profile map (so rules and the default that
/// name it keep a profile to apply).
pub proof fn law_every_server_profile_has_a_place<S>(
    scope: Seq<char>,
    lp: Seq<EqualizerProfile<S>>,
    sps: Seq<EqualizerProfile<S>>,
    same: Seq<Seq<bool>>,
    randoms: Seq<Seq<char>>,
)
    ensures
        ({
            let p = profiles_pass(scope, lp, sps, same, randoms, sps.len());
            p.ok ==> forall|i: int| 0 <= i < sps.len() ==> has_key(p.map, (#[trigger] sps[i]).id@)
        }),
{
    lemma_profiles_pass_places(scope, lp, sps, same, randoms, sps.len());
}

} // verus!
