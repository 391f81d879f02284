//! Supervisor: counts anomaly occurrences per pattern and answers with an
//! intervention once a pattern has been seen `intervention_threshold` times.

use vstd::prelude::*;
use crate::config::owned;
use crate::types::{
    anomaly_index, lemma_anomaly_index_injective, AnomalyPattern, CognitivePhase,
    InterventionType, ANOMALY_PATTERN_COUNT,
};

verus! {

/// The intervention the supervisor applies to each anomaly pattern.
pub open spec fn is_intervention_for(p: AnomalyPattern, iv: InterventionType) -> bool {
    match p {
        AnomalyPattern::RepeatedCompilationErrors => iv matches InterventionType::PromptInjection {
            guidance,
        } && guidance@ == "Focus on simpler module structure"@,
        AnomalyPattern::EfficiencyCollapse => iv matches InterventionType::ModelEscalation {
            to_model,
        } && to_model@ == "model_for_retry"@,
        AnomalyPattern::RecoveryLoop => iv == (InterventionType::TightenConfidenceThreshold {
            delta_thousandths: 50,
        }),
        AnomalyPattern::ErrorStorm => iv == (InterventionType::PauseCycle { duration_secs: 300 }),
        AnomalyPattern::StaleData => iv == InterventionType::ResetCounters,
        AnomalyPattern::RedundantModules => iv == InterventionType::ForceRecoveryMode,
        AnomalyPattern::ContextOverflow => iv == (InterventionType::SkipPhase {
            phase: CognitivePhase::MetaAdaptation,
        }),
    }
}

/// The count a pattern has reached: an absent counter counts as zero.
pub open spec fn count_or_zero(c: Option<u32>) -> nat {
    match c {
        Some(n) => n as nat,
        None => 0,
    }
}

/// The counters after one more occurrence of `p`, and whether it calls for
/// an intervention: the count goes up by one, and back to zero when it
/// reaches the threshold.
pub open spec fn record_step(counts: Seq<Option<u32>>, threshold: u32, p: AnomalyPattern) -> (Seq<Option<u32>>, bool) {
    let k = anomaly_index(p) as int;
    let c = count_or_zero(counts[k]) + 1;
    if c >= threshold {
        (counts.update(k, Some(0u32)), true)
    } else {
        (counts.update(k, Some(c as u32)), false)
    }
}

/// The counters after `n` occurrences of `p` in a row.
pub open spec fn record_many(counts: Seq<Option<u32>>, threshold: u32, p: AnomalyPattern, n: nat) -> Seq<Option<u32>>
    decreases n,
{
    if n == 0 {
        counts
    } else {
        record_step(record_many(counts, threshold, p, (n - 1) as nat), threshold, p).0
    }
}

/// From a zero count, the first `threshold - 1` occurrences of a pattern
/// only count (the count is then the number of occurrences), the
/// `threshold`-th calls for the intervention and puts the count back to
/// zero, and other patterns' counters never change.
pub proof fn lemma_intervention_at_threshold(
    counts: Seq<Option<u32>>,
    threshold: u32,
    p: AnomalyPattern,
    n: nat,
    q: AnomalyPattern,
)
    requires
        counts.len() == ANOMALY_PATTERN_COUNT,
        count_or_zero(counts[anomaly_index(p) as int]) == 0,
        threshold >= 1,
        1 <= n <= threshold,
    ensures
        n < threshold ==> !record_step(record_many(counts, threshold, p, (n - 1) as nat), threshold, p).1,
        n < threshold ==> record_many(counts, threshold, p, n)[anomaly_index(p) as int] == Some(n as u32),
        n == threshold ==> record_step(record_many(counts, threshold, p, (n - 1) as nat), threshold, p).1,
        n == threshold ==> record_many(counts, threshold, p, n)[anomaly_index(p) as int] == Some(0u32),
        q != p ==> record_many(counts, threshold, p, n)[anomaly_index(q) as int] == counts[anomaly_index(q) as int],
        record_many(counts, threshold, p, n).len() == ANOMALY_PATTERN_COUNT,
    decreases n,
{
    lemma_anomaly_index_injective(p, q);
    lemma_anomaly_index_injective(p, p);
    let k = anomaly_index(p) as int;
    if n == 1 {
        assert(record_many(counts, threshold, p, 0) == counts);
    } else {
        lemma_intervention_at_threshold(counts, threshold, p, (n - 1) as nat, q);
        let prev = record_many(counts, threshold, p, (n - 1) as nat);
        assert(prev[k] == Some((n - 1) as u32));
        assert(count_or_zero(prev[k]) == n - 1);
    }
}

/// Tracks anomaly occurrences and applies interventions.
pub struct Supervisor {
    anomaly_counters: Vec<Option<u32>>,
    intervention_threshold: u32,
}

impl View for Supervisor {
    /// One entry per pattern, at `anomaly_index`: `None` until the pattern is
    /// first recorded (and again after `reset`), else its current count.
    type V = Seq<Option<u32>>;

    closed spec fn view(&self) -> Seq<Option<u32>> {
        self.anomaly_counters@
    }
}

impl Supervisor {
    /// The number of occurrences at which a pattern triggers an intervention.
    pub closed spec fn threshold(&self) -> u32 {
        self.intervention_threshold
    }

    /// Every counter stays below the threshold (or at zero), so one more
    /// occurrence never overflows.
    #[verifier::type_invariant]
    closed spec fn wf(&self) -> bool {
        &&& self.anomaly_counters@.len() == ANOMALY_PATTERN_COUNT
        &&& forall|i: int|
            0 <= i < self.anomaly_counters@.len() ==> match #[trigger] self.anomaly_counters@[i] {
                Some(c) => c == 0 || c < self.intervention_threshold,
                None => true,
            }
    }

    /// A supervisor with no recorded anomaly.
    pub fn new(intervention_threshold: u32) -> (s: Self)
        ensures
            s.threshold() == intervention_threshold,
            s@ == Seq::new(ANOMALY_PATTERN_COUNT as nat, |i: int| None::<u32>),
    {
        let mut counters: Vec<Option<u32>> = Vec::new();
        let mut i: usize = 0;
        while i < ANOMALY_PATTERN_COUNT
            invariant
                i <= ANOMALY_PATTERN_COUNT,
                counters@ == Seq::new(i as nat, |j: int| None::<u32>),
            decreases ANOMALY_PATTERN_COUNT - i,
        {
            counters.push(None);
            i = i + 1;
        }
        Supervisor { anomaly_counters: counters, intervention_threshold }
    }

    /// Record one occurrence of `pattern`. When its count reaches the
    /// threshold, the counter goes back to zero and the pattern's
    /// intervention is returned; otherwise the count is kept and `None` comes
    /// back. Other patterns' counters are untouched.
    pub fn record_anomaly(&mut self, pattern: AnomalyPattern) -> (r: Option<InterventionType>)
        ensures
            old(self)@.len() == ANOMALY_PATTERN_COUNT,
            final(self)@.len() == ANOMALY_PATTERN_COUNT,
            final(self).threshold() == old(self).threshold(),
            final(self)@ == record_step(old(self)@, old(self).threshold(), pattern).0,
            record_step(old(self)@, old(self).threshold(), pattern).1 ==> (r matches Some(iv)
                && is_intervention_for(pattern, iv)),
            !record_step(old(self)@, old(self).threshold(), pattern).1 ==> r is None,
    {
        proof {
            use_type_invariant(&*self);
        }
        let k = pattern.index();
        proof {
            lemma_anomaly_index_injective(pattern, pattern);
        }
        let current: u32 = match self.anomaly_counters[k] {
            Some(c) => c,
            None => 0,
        };
        assert(current == 0 || current < self.intervention_threshold) by {
            assert(match self.anomaly_counters@[k as int] {
                Some(c) => c == 0 || c < self.intervention_threshold,
                None => true,
            });
        }
        let count: u32 = current + 1;
        let mut counters = self.anomaly_counters.clone();
        if count >= self.intervention_threshold {
            counters.set(k, Some(0));
            self.anomaly_counters = counters;
            Some(self.choose_intervention(pattern))
        } else {
            counters.set(k, Some(count));
            self.anomaly_counters = counters;
            None
        }
    }

    /// The intervention for an anomaly pattern.
    fn choose_intervention(&self, pattern: AnomalyPattern) -> (iv: InterventionType)
        ensures
            is_intervention_for(pattern, iv),
    {
        match pattern {
            AnomalyPattern::RepeatedCompilationErrors => InterventionType::PromptInjection {
                guidance: owned("Focus on simpler module structure"),
            },
            AnomalyPattern::EfficiencyCollapse => InterventionType::ModelEscalation {
                to_model: owned("model_for_retry"),
            },
            AnomalyPattern::RecoveryLoop => InterventionType::TightenConfidenceThreshold {
                delta_thousandths: 50,
            },
            AnomalyPattern::ErrorStorm => InterventionType::PauseCycle { duration_secs: 300 },
            AnomalyPattern::StaleData => InterventionType::ResetCounters,
            AnomalyPattern::RedundantModules => InterventionType::ForceRecoveryMode,
            AnomalyPattern::ContextOverflow => InterventionType::SkipPhase {
                phase: CognitivePhase::MetaAdaptation,
            },
        }
    }

    /// Current anomaly counts, one entry per pattern at its `index()`:
    /// `None` for a pattern not recorded since the last reset.
    pub fn anomaly_counts(&self) -> (r: Vec<Option<u32>>)
        ensures
            r@ == self@,
            r@.len() == ANOMALY_PATTERN_COUNT,
    {
        proof {
            use_type_invariant(self);
        }
        self.anomaly_counters.clone()
    }

    /// Forget every counter.
    pub fn reset(&mut self)
        ensures
            final(self).threshold() == old(self).threshold(),
            final(self)@ == Seq::new(ANOMALY_PATTERN_COUNT as nat, |i: int| None::<u32>),
    {
        let mut counters: Vec<Option<u32>> = Vec::new();
        let mut i: usize = 0;
        while i < ANOMALY_PATTERN_COUNT
            invariant
                i <= ANOMALY_PATTERN_COUNT,
                counters@ == Seq::new(i as nat, |j: int| None::<u32>),
            decreases ANOMALY_PATTERN_COUNT - i,
        {
            counters.push(None);
            i = i + 1;
        }
        self.anomaly_counters = counters;
        assert(self.anomaly_counters@ =~= Seq::new(ANOMALY_PATTERN_COUNT as nat, |i: int| None::<u32>));
    }
}

} // verus!
