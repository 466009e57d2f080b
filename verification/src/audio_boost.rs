//! Per-process boost state and the gain pipeline.
//!
//! [`AudioBoostManager`] owns the store of boost settings keyed by
//! process id and applies each request to the control-surface volume of
//! the matching live session: the boosted volume is the current volume
//! times the factor, clamped at full scale. [`AudioProcessor`] holds the
//! sample-level stage meant for a future stream path: a hard-knee
//! limiter over a buffer and a soft-clip saturation for single samples.
//! [`VirtualAudioDevice`] is the placeholder for that stream path.
//!
//! Boost factors and samples are fixed-point values in thousandths, so
//! [`UNITY_BOOST`] and [`FULL_SCALE`] are both `1000`.

use std::collections::HashMap;
use vstd::prelude::*;
use crate::audio_manager::{
    find_session, lemma_find_session_absent, lemma_find_session_at, session_volumes_ok,
    BoostError, SessionControl, FULL_VOLUME,
};

verus! {

broadcast use vstd::std_specs::hash::group_hash_axioms;

/// The boost factor that leaves a session's volume as it is, in
/// thousandths.
pub const UNITY_BOOST: i64 = 1000;

/// Full scale of a sample, in thousandths.
pub const FULL_SCALE: i64 = 1000;

/// The widest sample or gain magnitude the sample stage accepts; keeps
/// every intermediate product within machine width.
pub const SIGNAL_BOUND: i64 = 1_000_000_000;

/// The boost settings stored for one process.
#[derive(Debug, Clone, Copy, PartialEq, Eq, Structural)]
pub struct BoostSettings {
    /// The requested factor, in thousandths; never negative once stored.
    pub boost_factor: i64,
    /// Whether the factor asks for amplification beyond unity.
    pub enabled: bool,
}

/// The settings that a stored factor takes: the enabled flag is derived.
pub open spec fn boost_settings_for(factor: i64) -> BoostSettings {
    BoostSettings { boost_factor: factor, enabled: factor > UNITY_BOOST }
}

/// The boost a store answers for a process: the stored factor, or unity
/// where no entry exists.
pub open spec fn spec_get_boost(store: Map<u32, BoostSettings>, process_id: u32) -> int {
    if store.contains_key(process_id) {
        store[process_id].boost_factor as int
    } else {
        UNITY_BOOST as int
    }
}

/// The volume a boost writes back: the current volume times the factor,
/// clamped at full volume.
pub open spec fn spec_boosted_volume(volume: int, factor: int) -> int {
    let raw = volume * factor / (FULL_VOLUME as int);
    if raw > FULL_VOLUME as int {
        FULL_VOLUME as int
    } else {
        raw
    }
}

/// The store of boost settings keyed by process id, and the coordinator
/// that applies them to the live sessions.
pub struct AudioBoostManager {
    boost_settings: HashMap<u32, BoostSettings>,
}

impl View for AudioBoostManager {
    type V = Map<u32, BoostSettings>;

    closed spec fn view(&self) -> Map<u32, BoostSettings> {
        self.boost_settings@
    }
}

impl AudioBoostManager {
    /// A manager with no boost stored for any process.
    pub fn new() -> (m: Self)
        ensures
            m@ == Map::<u32, BoostSettings>::empty(),
    {
        AudioBoostManager { boost_settings: HashMap::new() }
    }

    /// Stores `boost_factor` for `process_id` and applies it to the
    /// control-surface volume of the first matching session. A negative
    /// factor is rejected before anything changes; a missing session is
    /// reported, but the store keeps the intent all the same.
    pub fn set_boost(
        &mut self,
        sessions: &mut Vec<SessionControl>,
        process_id: u32,
        boost_factor: i64,
    ) -> (r: Result<(), BoostError>)
        requires
            session_volumes_ok(old(sessions)@),
        ensures
            session_volumes_ok(final(sessions)@),
            boost_factor < 0 ==> r == Err::<(), BoostError>(BoostError::InvalidFactor)
                && final(self)@ == old(self)@ && final(sessions)@ == old(sessions)@,
            boost_factor >= 0 ==> final(self)@ == old(self)@.insert(
                process_id,
                boost_settings_for(boost_factor),
            ) && (match find_session(old(sessions)@, process_id) {
                Some(j) => r == Ok::<(), BoostError>(()) && final(sessions)@ == old(
                    sessions,
                )@.update(
                    j,
                    (SessionControl {
                        volume: spec_boosted_volume(
                            old(sessions)@[j].volume as int,
                            boost_factor as int,
                        ) as u32,
                        ..old(sessions)@[j]
                    }),
                ),
                None => r == Err::<(), BoostError>(BoostError::SessionNotFound(process_id))
                    && final(sessions)@ == old(sessions)@,
            }),
    {
        if boost_factor < 0 {
            return Err(BoostError::InvalidFactor);
        }
        let settings = BoostSettings { boost_factor, enabled: boost_factor > UNITY_BOOST };
        self.boost_settings.insert(process_id, settings);
        Self::apply_boost_via_volume(sessions, process_id, boost_factor)
    }

    /// The boost stored for `process_id`: a pure store read that always
    /// succeeds and answers unity for an unknown process.
    pub fn get_boost(&self, process_id: u32) -> (r: i64)
        ensures
            r == spec_get_boost(self@, process_id),
    {
        match self.boost_settings.get(&process_id) {
            Some(s) => s.boost_factor,
            None => UNITY_BOOST,
        }
    }

    /// Drops the entry for `process_id` (a no-op when none exists) and
    /// re-applies unity against the first matching session, which leaves
    /// that session's current volume as it is.
    pub fn remove_boost(&mut self, sessions: &mut Vec<SessionControl>, process_id: u32) -> (r:
        Result<(), BoostError>)
        requires
            session_volumes_ok(old(sessions)@),
        ensures
            session_volumes_ok(final(sessions)@),
            final(self)@ == old(self)@.remove(process_id),
            match find_session(old(sessions)@, process_id) {
                Some(j) => r == Ok::<(), BoostError>(()) && final(sessions)@ == old(
                    sessions,
                )@.update(
                    j,
                    (SessionControl {
                        volume: spec_boosted_volume(
                            old(sessions)@[j].volume as int,
                            UNITY_BOOST as int,
                        ) as u32,
                        ..old(sessions)@[j]
                    }),
                ),
                None => r == Err::<(), BoostError>(BoostError::SessionNotFound(process_id))
                    && final(sessions)@ == old(sessions)@,
            },
    {
        self.boost_settings.remove(&process_id);
        Self::apply_boost_via_volume(sessions, process_id, UNITY_BOOST)
    }

    /// Multiplies the first matching session's current volume by the
    /// factor, clamped at full volume, and writes it back.
    fn apply_boost_via_volume(
        sessions: &mut Vec<SessionControl>,
        process_id: u32,
        boost_factor: i64,
    ) -> (r: Result<(), BoostError>)
        requires
            session_volumes_ok(old(sessions)@),
            boost_factor >= 0,
        ensures
            session_volumes_ok(final(sessions)@),
            match find_session(old(sessions)@, process_id) {
                Some(j) => r == Ok::<(), BoostError>(()) && final(sessions)@ == old(
                    sessions,
                )@.update(
                    j,
                    (SessionControl {
                        volume: spec_boosted_volume(
                            old(sessions)@[j].volume as int,
                            boost_factor as int,
                        ) as u32,
                        ..old(sessions)@[j]
                    }),
                ),
                None => r == Err::<(), BoostError>(BoostError::SessionNotFound(process_id))
                    && final(sessions)@ == old(sessions)@,
            },
    {
        let n = sessions.len();
        let mut k: usize = 0;
        while k < n
            invariant
                n == sessions@.len(),
                0 <= k <= n,
                sessions@ == old(sessions)@,
                session_volumes_ok(sessions@),
                boost_factor >= 0,
                forall|i: int| 0 <= i < k ==> (#[trigger] sessions@[i]).process_id != process_id,
            decreases n - k,
        {
            if sessions[k].process_id == process_id {
                proof {
                    lemma_find_session_at(sessions@, process_id, k as int);
                }
                let boosted = boosted_volume(sessions[k].volume, boost_factor);
                let elem = &mut sessions[k];
                elem.volume = boosted;
                proof {
                    assert forall|i: int| 0 <= i < final(sessions)@.len() implies (
                    #[trigger] final(sessions)@[i]).volume <= FULL_VOLUME by {
                        if i != k as int {
                            assert(final(sessions)@[i] == old(sessions)@[i]);
                        }
                    }
                }
                return Ok(());
            }
            k += 1;
        }
        proof {
            lemma_find_session_absent(sessions@, process_id);
        }
        Err(BoostError::SessionNotFound(process_id))
    }
}

/// Computes the boosted volume: current volume times factor, clamped at
/// full volume.
fn boosted_volume(volume: u32, factor: i64) -> (b: u32)
    requires
        volume <= FULL_VOLUME,
        factor >= 0,
    ensures
        b == spec_boosted_volume(volume as int, factor as int),
        b <= FULL_VOLUME,
{
    proof {
        assert((volume as int) * (factor as int) <= 1000 * (i64::MAX as int)) by (nonlinear_arith)
            requires
                volume <= 1000,
                0 <= factor <= i64::MAX,
        ;
    }
    let raw: u128 = (volume as u128) * (factor as u128) / (FULL_VOLUME as u128);
    if raw > FULL_VOLUME as u128 {
        FULL_VOLUME
    } else {
        raw as u32
    }
}

/// A process with no stored entry answers unity boost.
pub proof fn lemma_unset_boost_is_unity(store: Map<u32, BoostSettings>, process_id: u32)
    requires
        !store.contains_key(process_id),
    ensures
        spec_get_boost(store, process_id) == UNITY_BOOST as int,
{
}

/// Storing a valid factor and then reading it answers that factor,
/// whatever the store held before and whether or not a session matched.
pub proof fn lemma_set_then_get(store: Map<u32, BoostSettings>, process_id: u32, factor: i64)
    requires
        factor >= 0,
    ensures
        spec_get_boost(store.insert(process_id, boost_settings_for(factor)), process_id)
            == factor as int,
{
}

/// After a removal the process answers unity boost, whether or not an
/// entry existed.
pub proof fn lemma_remove_then_get(store: Map<u32, BoostSettings>, process_id: u32)
    ensures
        spec_get_boost(store.remove(process_id), process_id) == UNITY_BOOST as int,
{
}

/// Storing or removing one process's boost never changes what any other
/// process answers.
pub proof fn lemma_distinct_boosts_independent(
    store: Map<u32, BoostSettings>,
    process_id: u32,
    other_id: u32,
    factor: i64,
)
    requires
        process_id != other_id,
    ensures
        spec_get_boost(store.insert(other_id, boost_settings_for(factor)), process_id)
            == spec_get_boost(store, process_id),
        spec_get_boost(store.remove(other_id), process_id) == spec_get_boost(store, process_id),
{
}

/// The magnitude of `x`.
pub open spec fn abs_val(x: int) -> int {
    if x < 0 {
        -x
    } else {
        x
    }
}

/// One sample after gain and hard-knee limiting: the sample times the
/// gain (in thousandths), and where the magnitude of that product
/// exceeds the threshold, the excess above the threshold shrunk by the
/// ratio, with the product's sign kept.
pub open spec fn spec_limit_sample(s: int, g: int, t: int, r: int) -> int {
    let mag = abs_val(s) * abs_val(g) / (FULL_SCALE as int);
    let lim = if mag > t {
        t + (mag - t) / r
    } else {
        mag
    };
    if s * g < 0 {
        -lim
    } else {
        lim
    }
}

/// `x` shrunk `k` times by the factor 368/1000, a fixed-point step of
/// roughly one factor of e.
pub open spec fn spec_exp_shrink(x: int, k: nat) -> int
    decreases k,
{
    if k == 0 {
        x
    } else {
        spec_exp_shrink(x, (k - 1) as nat) * 368 / 1000
    }
}

/// How far below full scale a clipped sample of magnitude `m` lands: a
/// fixed-point decay of 368/1000 per whole unit of magnitude, with a
/// quadratic correction for the fractional part, and never less than
/// one thousandth (meaningful for `m` above full scale).
pub open spec fn spec_saturation_gap(m: int) -> int {
    let f = m % (FULL_SCALE as int);
    let q = m / (FULL_SCALE as int);
    let p = (FULL_SCALE as int) - f + f * f / 2000;
    let d = spec_exp_shrink(p, q as nat);
    if d < 1 {
        1
    } else {
        d
    }
}

/// Soft saturation: the identity within full scale; outside it, a value
/// strictly inside full scale that keeps the sample's sign and
/// approaches full scale as the magnitude grows.
pub open spec fn spec_soft_clip(s: int) -> int {
    if -(FULL_SCALE as int) <= s <= FULL_SCALE as int {
        s
    } else {
        let e = spec_saturation_gap(abs_val(s));
        if s > 0 {
            (FULL_SCALE as int) - e
        } else {
            e - (FULL_SCALE as int)
        }
    }
}

/// The sample-level gain stage: a hard-knee limiter and a soft clip,
/// both pure, meant for a stream path that does not yet exist.
pub struct AudioProcessor {
    limiter_threshold: i64,
    limiter_ratio: i64,
}

impl AudioProcessor {
    /// The limiter's threshold, in thousandths of full scale.
    pub closed spec fn threshold(&self) -> int {
        self.limiter_threshold as int
    }

    /// The limiter's compression ratio (the divisor of the excess).
    pub closed spec fn ratio(&self) -> int {
        self.limiter_ratio as int
    }

    /// A valid limiter configuration: a threshold within full scale and
    /// a ratio of at least one.
    pub open spec fn wf(&self) -> bool {
        0 < self.threshold() <= FULL_SCALE as int && 1 <= self.ratio()
    }

    /// A processor limiting at 950 thousandths with a 10:1 ratio.
    pub fn new() -> (p: Self)
        ensures
            p.wf(),
            p.threshold() == 950,
            p.ratio() == 10,
    {
        AudioProcessor { limiter_threshold: 950, limiter_ratio: 10 }
    }

    /// Multiplies every sample by `boost_factor` and limits each result:
    /// magnitude above the threshold is shrunk to the threshold plus the
    /// excess divided by the ratio; magnitude at or below it passes
    /// through unchanged. This alone bounds nothing at full scale: a
    /// caller that needs a hard ceiling must clamp as well.
    pub fn process_samples(&self, samples: &mut Vec<i64>, boost_factor: i64)
        requires
            self.wf(),
            -SIGNAL_BOUND <= boost_factor <= SIGNAL_BOUND,
            forall|i: int|
                0 <= i < old(samples)@.len() ==> -SIGNAL_BOUND <= #[trigger] old(samples)@[i]
                    <= SIGNAL_BOUND,
        ensures
            final(samples)@.len() == old(samples)@.len(),
            forall|i: int|
                0 <= i < old(samples)@.len() ==> #[trigger] final(samples)@[i]
                    == spec_limit_sample(
                    old(samples)@[i] as int,
                    boost_factor as int,
                    self.threshold(),
                    self.ratio(),
                ),
    {
        let n = samples.len();
        let mut k: usize = 0;
        while k < n
            invariant
                self.wf(),
                -SIGNAL_BOUND <= boost_factor <= SIGNAL_BOUND,
                n == samples@.len(),
                samples@.len() == old(samples)@.len(),
                0 <= k <= n,
                forall|i: int| k <= i < n ==> #[trigger] samples@[i] == old(samples)@[i],
                forall|i: int|
                    0 <= i < n ==> -SIGNAL_BOUND <= #[trigger] old(samples)@[i] <= SIGNAL_BOUND,
                forall|i: int|
                    0 <= i < k ==> #[trigger] samples@[i] == spec_limit_sample(
                        old(samples)@[i] as int,
                        boost_factor as int,
                        self.threshold(),
                        self.ratio(),
                    ),
            decreases n - k,
        {
            let v = samples[k];
            let w = self.limit_sample(v, boost_factor);
            samples[k] = w;
            k += 1;
        }
    }

    /// Applies gain and the hard-knee limiter to one sample.
    fn limit_sample(&self, sample: i64, gain: i64) -> (out: i64)
        requires
            self.wf(),
            -SIGNAL_BOUND <= sample <= SIGNAL_BOUND,
            -SIGNAL_BOUND <= gain <= SIGNAL_BOUND,
        ensures
            out == spec_limit_sample(sample as int, gain as int, self.threshold(), self.ratio()),
    {
        let s_mag: u64 = if sample < 0 {
            (-sample) as u64
        } else {
            sample as u64
        };
        let g_mag: u64 = if gain < 0 {
            (-gain) as u64
        } else {
            gain as u64
        };
        proof {
            assert((s_mag as int) * (g_mag as int) <= 1_000_000_000 * 1_000_000_000int)
                by (nonlinear_arith)
                requires
                    0 <= s_mag as int <= 1_000_000_000,
                    0 <= g_mag as int <= 1_000_000_000,
            ;
        }
        let product: u64 = s_mag * g_mag;
        let mag: u64 = product / (FULL_SCALE as u64);
        proof {
            vstd::arithmetic::div_mod::lemma_div_pos_is_pos(product as int, 1000);
            vstd::arithmetic::div_mod::lemma_div_nonincreasing(product as int, 1000);
        }
        let t: u64 = self.limiter_threshold as u64;
        let lim: u64 = if mag > t {
            proof {
                vstd::arithmetic::div_mod::lemma_div_pos_is_pos(
                    mag as int - self.threshold(),
                    self.ratio(),
                );
                vstd::arithmetic::div_mod::lemma_div_nonincreasing(
                    mag as int - self.threshold(),
                    self.ratio(),
                );
            }
            t + (mag - t) / (self.limiter_ratio as u64)
        } else {
            mag
        };
        proof {
            assert(s_mag as int == abs_val(sample as int));
            assert(g_mag as int == abs_val(gain as int));
            assert(product as int == abs_val(sample as int) * abs_val(gain as int));
            assert(mag as int == abs_val(sample as int) * abs_val(gain as int) / (
            FULL_SCALE as int));
        }
        if (sample < 0) != (gain < 0) {
            proof {
                if sample < 0 && gain > 0 {
                    assert((sample as int) * (gain as int) < 0) by (nonlinear_arith)
                        requires
                            sample < 0 && gain > 0,
                    ;
                }
                if sample > 0 && gain < 0 {
                    assert((sample as int) * (gain as int) < 0) by (nonlinear_arith)
                        requires
                            sample > 0 && gain < 0,
                    ;
                }
                if sample == 0 || gain == 0 {
                    assert((s_mag as int) * (g_mag as int) == 0) by (nonlinear_arith)
                        requires
                            s_mag == 0 || g_mag == 0,
                    ;
                    assert((sample as int) * (gain as int) == 0) by (nonlinear_arith)
                        requires
                            sample == 0 || gain == 0,
                    ;
                    assert(mag == 0);
                    assert(lim == 0);
                }
            }
            -(lim as i64)
        } else {
            proof {
                assert((sample as int) * (gain as int) >= 0) by (nonlinear_arith)
                    requires
                        (sample >= 0 && gain >= 0) || (sample <= 0 && gain <= 0),
                ;
            }
            lim as i64
        }
    }

    /// Soft-clips one sample: the identity within full scale, and a
    /// saturating value strictly inside full scale beyond it.
    pub fn soft_clip(&self, sample: i64) -> (out: i64)
        requires
            -SIGNAL_BOUND <= sample <= SIGNAL_BOUND,
        ensures
            out == spec_soft_clip(sample as int),
    {
        if -FULL_SCALE <= sample && sample <= FULL_SCALE {
            return sample;
        }
        let m: u64 = if sample < 0 {
            (-sample) as u64
        } else {
            sample as u64
        };
        let q: u64 = m / (FULL_SCALE as u64);
        let f: u64 = m % (FULL_SCALE as u64);
        proof {
            vstd::arithmetic::div_mod::lemma_mod_bound(m as int, 1000);
            lemma_fraction_correction_bounds(f as int);
        }
        let p: u64 = (FULL_SCALE as u64) - f + (f * f) / 2000;
        let mut d: u64 = p;
        let mut i: u64 = 0;
        while i < q
            invariant
                0 <= d <= 1000,
                i <= q,
                d as int == spec_exp_shrink(p as int, i as nat),
            decreases q - i,
        {
            proof {
                vstd::arithmetic::div_mod::lemma_div_pos_is_pos((d as int) * 368, 1000);
                vstd::arithmetic::div_mod::lemma_div_is_ordered((d as int) * 368, 368 * 1000int, 1000);
                vstd::arithmetic::div_mod::lemma_div_by_multiple(368, 1000);
            }
            d = d * 368 / 1000;
            i += 1;
        }
        let e: u64 = if d < 1 {
            1
        } else {
            d
        };
        let out: u64 = (FULL_SCALE as u64) - e;
        if sample > 0 {
            out as i64
        } else {
            -(out as i64)
        }
    }
}

/// The fractional correction stays within the fraction itself: for
/// `0 <= f < 1000`, `f * f / 2000 <= f`.
proof fn lemma_fraction_correction_bounds(f: int)
    requires
        0 <= f < 1000,
    ensures
        0 <= f * f / 2000 <= f,
{
    assert(f * f <= 1999 * f) by (nonlinear_arith)
        requires
            0 <= f < 1000,
    ;
    assert(f * f >= 0) by (nonlinear_arith)
        requires
            0 <= f,
    ;
    vstd::arithmetic::div_mod::lemma_div_pos_is_pos(f * f, 2000);
    vstd::arithmetic::div_mod::lemma_div_is_ordered(f * f, 2000 * f, 2000);
    vstd::arithmetic::div_mod::lemma_div_by_multiple(f, 2000);
}

/// Shrinking any value within full scale at least once lands in
/// `[0, 368]`.
proof fn lemma_exp_shrink_bounds(x: int, k: nat)
    requires
        0 <= x <= 1000,
        1 <= k,
    ensures
        0 <= spec_exp_shrink(x, k) <= 368,
    decreases k,
{
    if k == 1 {
        assert(spec_exp_shrink(x, 0nat) == x);
        vstd::arithmetic::div_mod::lemma_div_pos_is_pos(x * 368, 1000);
        vstd::arithmetic::div_mod::lemma_div_is_ordered(x * 368, 368 * 1000int, 1000);
        vstd::arithmetic::div_mod::lemma_div_by_multiple(368, 1000);
    } else {
        lemma_exp_shrink_bounds(x, (k - 1) as nat);
        let y = spec_exp_shrink(x, (k - 1) as nat);
        vstd::arithmetic::div_mod::lemma_div_pos_is_pos(y * 368, 1000);
        vstd::arithmetic::div_mod::lemma_div_is_ordered(y * 368, 368 * 1000int, 1000);
        vstd::arithmetic::div_mod::lemma_div_by_multiple(368, 1000);
    }
}

/// The limiter's ceiling: a gained magnitude within the threshold comes
/// out within the threshold, and one beyond it comes out no higher than
/// the threshold plus the excess shrunk by the ratio — which is not a
/// hard ceiling at full scale, so a caller wanting one must clamp.
pub proof fn lemma_limit_sample_ceiling(s: int, g: int, t: int, r: int)
    requires
        0 <= t,
        1 <= r,
    ensures
        ({
            let mag = abs_val(s) * abs_val(g) / (FULL_SCALE as int);
            &&& (mag <= t ==> abs_val(spec_limit_sample(s, g, t, r)) <= t)
            &&& (mag > t ==> abs_val(spec_limit_sample(s, g, t, r)) == t + (mag - t) / r)
        }),
{
    assert(abs_val(s) * abs_val(g) >= 0) by (nonlinear_arith)
        requires
            abs_val(s) >= 0,
            abs_val(g) >= 0,
    ;
    let mag = abs_val(s) * abs_val(g) / (FULL_SCALE as int);
    vstd::arithmetic::div_mod::lemma_div_pos_is_pos(abs_val(s) * abs_val(g), FULL_SCALE as int);
    if mag > t {
        vstd::arithmetic::div_mod::lemma_div_pos_is_pos(mag - t, r);
    }
}

/// With unity gain, a sample whose magnitude is within the threshold
/// passes the limiter unchanged.
pub proof fn lemma_unity_gain_below_threshold_identity(s: int, t: int, r: int)
    requires
        abs_val(s) <= t,
        0 <= t,
        1 <= r,
    ensures
        spec_limit_sample(s, FULL_SCALE as int, t, r) == s,
{
    vstd::arithmetic::div_mod::lemma_div_by_multiple(abs_val(s), 1000);
}

/// Soft clip is the identity for any sample within full scale.
pub proof fn lemma_soft_clip_identity(s: int)
    requires
        -(FULL_SCALE as int) <= s <= FULL_SCALE as int,
    ensures
        spec_soft_clip(s) == s,
{
}

/// Above full scale the saturation gap lies in `[1, 368]`, so a clipped
/// sample lands strictly between zero and full scale.
pub proof fn lemma_saturation_gap_bounds(m: int)
    requires
        m > FULL_SCALE as int,
    ensures
        1 <= spec_saturation_gap(m) <= 368,
{
    let f = m % 1000;
    let q = m / 1000;
    vstd::arithmetic::div_mod::lemma_mod_bound(m, 1000);
    vstd::arithmetic::div_mod::lemma_fundamental_div_mod(m, 1000);
    assert(q >= 1);
    lemma_fraction_correction_bounds(f);
    let p = 1000 - f + f * f / 2000;
    lemma_exp_shrink_bounds(p, q as nat);
}

/// A sample above full scale soft-clips to a value strictly between
/// zero and full scale.
pub proof fn lemma_soft_clip_saturates_high(s: int)
    requires
        s > FULL_SCALE as int,
    ensures
        0 < spec_soft_clip(s) < FULL_SCALE as int,
{
    lemma_saturation_gap_bounds(s);
}

/// A sample below negative full scale soft-clips to a value strictly
/// between negative full scale and zero.
pub proof fn lemma_soft_clip_saturates_low(s: int)
    requires
        s < -(FULL_SCALE as int),
    ensures
        -(FULL_SCALE as int) < spec_soft_clip(s) < 0,
{
    lemma_saturation_gap_bounds(-s);
}

/// The error of the stream path that no real endpoint backs yet.
#[derive(Debug, Clone, Copy, PartialEq, Eq, Structural)]
pub enum AudioDeviceError {
    /// The virtual device exists only as a capability boundary.
    NotImplemented,
}

/// The placeholder for a stream-intercepting virtual output device.
pub struct VirtualAudioDevice {
    device_name: String,
    sample_rate: u32,
    channels: u16,
}

impl VirtualAudioDevice {
    /// The device's name.
    pub closed spec fn device_name(&self) -> Seq<char> {
        self.device_name@
    }

    /// The device's sample rate, in hertz.
    pub closed spec fn sample_rate(&self) -> u32 {
        self.sample_rate
    }

    /// The device's channel count.
    pub closed spec fn channels(&self) -> u16 {
        self.channels
    }

    /// A named stereo device at 44100 Hz, not yet backed by an endpoint.
    pub fn new(name: &str) -> (d: Self)
        ensures
            d.device_name() == name@,
            d.sample_rate() == 44100,
            d.channels() == 2,
    {
        VirtualAudioDevice { device_name: name.to_owned(), sample_rate: 44100, channels: 2 }
    }

    /// Registering the device is not implemented: every call says so.
    pub fn initialize(&self) -> (r: Result<(), AudioDeviceError>)
        ensures
            r == Err::<(), AudioDeviceError>(AudioDeviceError::NotImplemented),
    {
        Err(AudioDeviceError::NotImplemented)
    }

    /// Stream processing is not implemented: every call says so and
    /// leaves the output untouched.
    pub fn process_audio_stream(
        &self,
        _input: &Vec<i64>,
        _output: &mut Vec<i64>,
        _boost_factor: i64,
    ) -> (r: Result<(), AudioDeviceError>)
        ensures
            r == Err::<(), AudioDeviceError>(AudioDeviceError::NotImplemented),
            final(_output)@ == old(_output)@,
    {
        Err(AudioDeviceError::NotImplemented)
    }
}

} // verus!
