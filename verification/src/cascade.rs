//! The detection cascade as a state machine. The machine names the probe to
//! run next and the time it may take; whoever drives it runs the probe and
//! reports what came back. The three mandatory sources are asked in order
//! until one finds the product; the optional sources then refine what was
//! found, within the time budget.

use crate::detection::{DetectionRecord, Evidence, PartialEvidence, Record, SourceTag};
use vstd::prelude::*;

verus! {

/// The longest that the network probe may take, in milliseconds.
pub const NETWORK_PROBE_CEILING_MS: u64 = 200;

/// How a cascade is to run.
#[derive(Clone, Copy, Debug, PartialEq, Eq, Structural)]
pub struct CascadeConfig {
    /// The time budget of the whole run, in milliseconds.
    pub total_budget_ms: u64,
    /// Whether the network probe is available.
    pub network_probe: bool,
    /// Whether the database probe is available.
    pub database_probe: bool,
}

/// The probe to run next, and the time it may take.
#[derive(Clone, Copy, Debug, PartialEq, Eq, Structural)]
pub struct ProbeRequest {
    pub source: SourceTag,
    pub timeout_ms: u64,
}

/// The model of a [`ProbeOutcome`].
pub struct Outcome {
    pub evidence: Option<Evidence>,
    pub elapsed_ms: u64,
}

/// The model of a list of outcomes.
pub open spec fn script(outcomes: Seq<ProbeOutcome>) -> Seq<Outcome> {
    Seq::new(outcomes.len(), |i: int| outcomes[i]@)
}

/// What came back from a probe: its evidence, or none where it failed, timed
/// out or could not run, and the time it took.
#[derive(Clone, Debug, PartialEq, Eq)]
pub struct ProbeOutcome {
    pub evidence: Option<PartialEvidence>,
    pub elapsed_ms: u64,
}

impl View for ProbeOutcome {
    type V = Outcome;

    open spec fn view(&self) -> Outcome {
        Outcome {
            evidence: match self.evidence {
                Some(e) => Some(e@),
                None => None,
            },
            elapsed_ms: self.elapsed_ms,
        }
    }
}

impl Outcome {
    /// Whether the outcome holds evidence that the product is installed.
    pub open spec fn positive(self) -> bool {
        self.evidence is Some && self.evidence->Some_0.installed
    }
}

/// The longest that a probe of `source` may take: the fixed ceiling of the
/// network probe, the whole budget for every other source.
pub open spec fn ceiling(config: CascadeConfig, source: SourceTag) -> u64 {
    if source is NetworkProtocol {
        NETWORK_PROBE_CEILING_MS
    } else {
        config.total_budget_ms
    }
}

/// The time granted to a probe of `source`: what is left of the budget, but
/// no more than the source's ceiling.
pub open spec fn granted(config: CascadeConfig, source: SourceTag, remaining_ms: u64) -> u64 {
    if remaining_ms <= ceiling(config, source) {
        remaining_ms
    } else {
        ceiling(config, source)
    }
}

/// What is left of a budget when some time has been spent.
pub open spec fn spend(remaining_ms: u64, elapsed_ms: u64) -> u64 {
    if elapsed_ms >= remaining_ms {
        0
    } else {
        (remaining_ms - elapsed_ms) as u64
    }
}

/// The first optional source, from `from` on, that is available. None is
/// asked once the budget is used up.
pub open spec fn optional_from(config: CascadeConfig, from: SourceTag, remaining_ms: u64) -> Option<
    SourceTag,
> {
    if remaining_ms == 0 {
        None
    } else if from is NetworkProtocol && config.network_probe {
        Some(SourceTag::NetworkProtocol)
    } else if (from is NetworkProtocol || from is Database) && config.database_probe {
        Some(SourceTag::Database)
    } else {
        None
    }
}

/// The source to ask after `source` has reported. A mandatory source that
/// found nothing is followed by the next mandatory one, and the last of them
/// by none. Once the product is found the optional sources follow.
pub open spec fn successor(
    config: CascadeConfig,
    source: SourceTag,
    installed: bool,
    remaining_ms: u64,
) -> Option<SourceTag> {
    match source {
        SourceTag::RegistryUninstall => if installed {
            optional_from(config, SourceTag::NetworkProtocol, remaining_ms)
        } else {
            Some(SourceTag::VendorRegistry)
        },
        SourceTag::VendorRegistry => if installed {
            optional_from(config, SourceTag::NetworkProtocol, remaining_ms)
        } else {
            Some(SourceTag::FilesystemPath)
        },
        SourceTag::FilesystemPath => if installed {
            optional_from(config, SourceTag::NetworkProtocol, remaining_ms)
        } else {
            None
        },
        SourceTag::NetworkProtocol => optional_from(config, SourceTag::Database, remaining_ms),
        SourceTag::Database => None,
    }
}

/// The model of a [`DetectionCascade`].
pub struct CascadeState {
    pub config: CascadeConfig,
    pub record: Record,
    /// The source to ask next; none once the cascade has finished.
    pub pending: Option<SourceTag>,
    pub remaining_ms: u64,
}

impl CascadeState {
    /// The state in which every cascade starts.
    pub open spec fn initial(config: CascadeConfig) -> CascadeState {
        CascadeState {
            config,
            record: Record::absent(),
            pending: Some(SourceTag::RegistryUninstall),
            remaining_ms: config.total_budget_ms,
        }
    }

    /// The request that the state makes of its driver.
    pub open spec fn request(self) -> Option<ProbeRequest> {
        match self.pending {
            Some(source) => Some(
                ProbeRequest {
                    source,
                    timeout_ms: granted(self.config, source, self.remaining_ms),
                },
            ),
            None => None,
        }
    }

    /// The record after the pending source has reported `outcome`. Positive
    /// evidence of a mandatory source becomes the baseline; evidence of an
    /// optional source refines the record; anything else leaves it alone.
    pub open spec fn merged(self, outcome: Outcome) -> Record {
        match (self.pending, outcome.evidence) {
            (Some(source), Some(evidence)) => if source.is_mandatory() {
                if evidence.installed {
                    Record::adopt(source, evidence)
                } else {
                    self.record
                }
            } else {
                self.record.refine(source, evidence)
            },
            _ => self.record,
        }
    }

    /// The state after the pending source has reported `outcome`. A cascade
    /// that has finished stays as it is.
    pub open spec fn step(self, outcome: Outcome) -> CascadeState {
        match self.pending {
            Some(source) => {
                let record = self.merged(outcome);
                let remaining_ms = spend(self.remaining_ms, outcome.elapsed_ms);
                CascadeState {
                    config: self.config,
                    record,
                    pending: successor(self.config, source, record.installed, remaining_ms),
                    remaining_ms,
                }
            },
            None => self,
        }
    }

    /// The state after the outcomes have been reported one after another.
    pub open spec fn run(self, outcomes: Seq<Outcome>) -> CascadeState
        decreases outcomes.len(),
    {
        if outcomes.len() == 0 {
            self
        } else {
            self.run(outcomes.drop_last()).step(outcomes.last())
        }
    }

    /// What holds of every state that a cascade reaches: the record is well
    /// formed, a mandatory source is pending only while nothing was found,
    /// and an optional source only once the product was found and while
    /// budget is left.
    pub open spec fn inv(self) -> bool {
        &&& self.record.wf()
        &&& self.remaining_ms <= self.config.total_budget_ms
        &&& match self.pending {
            Some(source) => if source.is_mandatory() {
                !self.record.installed
            } else {
                self.record.installed && self.remaining_ms > 0
            },
            None => true,
        }
    }
}

/// A detection cascade in progress.
#[derive(Debug)]
pub struct DetectionCascade {
    config: CascadeConfig,
    record: DetectionRecord,
    pending: Option<SourceTag>,
    remaining_ms: u64,
}

impl View for DetectionCascade {
    type V = CascadeState;

    closed spec fn view(&self) -> CascadeState {
        CascadeState {
            config: self.config,
            record: self.record@,
            pending: self.pending,
            remaining_ms: self.remaining_ms,
        }
    }
}

fn first_optional(config: &CascadeConfig, from: SourceTag, remaining_ms: u64) -> (r: Option<
    SourceTag,
>)
    ensures
        r == optional_from(*config, from, remaining_ms),
{
    if remaining_ms == 0 {
        None
    } else if matches!(from, SourceTag::NetworkProtocol) && config.network_probe {
        Some(SourceTag::NetworkProtocol)
    } else if matches!(from, SourceTag::NetworkProtocol | SourceTag::Database)
        && config.database_probe {
        Some(SourceTag::Database)
    } else {
        None
    }
}

fn next_source(config: &CascadeConfig, source: SourceTag, installed: bool, remaining_ms: u64) -> (r:
    Option<SourceTag>)
    ensures
        r == successor(*config, source, installed, remaining_ms),
{
    match source {
        SourceTag::RegistryUninstall => if installed {
            first_optional(config, SourceTag::NetworkProtocol, remaining_ms)
        } else {
            Some(SourceTag::VendorRegistry)
        },
        SourceTag::VendorRegistry => if installed {
            first_optional(config, SourceTag::NetworkProtocol, remaining_ms)
        } else {
            Some(SourceTag::FilesystemPath)
        },
        SourceTag::FilesystemPath => if installed {
            first_optional(config, SourceTag::NetworkProtocol, remaining_ms)
        } else {
            None
        },
        SourceTag::NetworkProtocol => first_optional(config, SourceTag::Database, remaining_ms),
        SourceTag::Database => None,
    }
}

/// The time granted to a probe of `source` when `remaining_ms` is left of the
/// budget.
pub fn probe_timeout(config: &CascadeConfig, source: SourceTag, remaining_ms: u64) -> (r: u64)
    ensures
        r == granted(*config, source, remaining_ms),
        r <= remaining_ms,
        r <= ceiling(*config, source),
{
    let limit = match source {
        SourceTag::NetworkProtocol => NETWORK_PROBE_CEILING_MS,
        _ => config.total_budget_ms,
    };
    if remaining_ms <= limit {
        remaining_ms
    } else {
        limit
    }
}

impl DetectionCascade {
    /// Every cascade is in a state that a run can reach.
    #[verifier::type_invariant]
    spec fn reachable(&self) -> bool {
        self@.inv()
    }

    /// A cascade before its first probe.
    pub fn start(config: CascadeConfig) -> (r: DetectionCascade)
        ensures
            r@ == CascadeState::initial(config),
            r@.inv(),
    {
        DetectionCascade {
            config,
            record: DetectionRecord::absent(),
            pending: Some(SourceTag::RegistryUninstall),
            remaining_ms: config.total_budget_ms,
        }
    }

    /// The probe to run next, or `None` once the cascade has finished.
    pub fn next_probe(&self) -> (r: Option<ProbeRequest>)
        ensures
            r == self@.request(),
            self@.inv(),
    {
        proof {
            use_type_invariant(self);
        }
        match self.pending {
            Some(source) => Some(
                ProbeRequest {
                    source,
                    timeout_ms: probe_timeout(&self.config, source, self.remaining_ms),
                },
            ),
            None => None,
        }
    }

    /// Whether the cascade has finished.
    pub fn is_finished(&self) -> (r: bool)
        ensures
            r == (self@.pending is None),
    {
        self.pending.is_none()
    }

    /// Takes in what the pending probe reported, and moves on.
    pub fn report(&mut self, outcome: ProbeOutcome)
        ensures
            final(self)@ == old(self)@.step(outcome@),
            final(self)@.inv(),
    {
        // The state is taken out and put back whole: the cascade is never
        // left half updated.
        let mut current = DetectionCascade::start(self.config);
        core::mem::swap(self, &mut current);
        proof {
            use_type_invariant(&current);
            lemma_step_inv(current@, outcome@);
        }
        let DetectionCascade { config, record, pending, remaining_ms } = current;
        let mut record = record;
        let mut pending = pending;
        let mut remaining_ms = remaining_ms;
        if let Some(source) = pending {
            if let Some(evidence) = outcome.evidence {
                if source.mandatory() {
                    if evidence.installed {
                        record = DetectionRecord::adopt(source, evidence);
                    }
                } else {
                    record.refine(source, evidence);
                }
            }
            remaining_ms = if outcome.elapsed_ms >= remaining_ms {
                0
            } else {
                remaining_ms - outcome.elapsed_ms
            };
            pending = next_source(&config, source, record.installed, remaining_ms);
        }
        *self = DetectionCascade { config, record, pending, remaining_ms };
    }

    /// The record as it stands.
    pub fn record(&self) -> (r: &DetectionRecord)
        ensures
            r@ == self@.record,
            r@.wf(),
    {
        proof {
            use_type_invariant(self);
        }
        &self.record
    }

    /// The record of the cascade.
    pub fn into_record(self) -> (r: DetectionRecord)
        ensures
            r@ == self@.record,
            r@.wf(),
    {
        proof {
            use_type_invariant(&self);
        }
        self.record
    }

    /// Runs a cascade on outcomes that were gathered beforehand: they are
    /// reported one after another, and those behind the end of the cascade
    /// are ignored.
    pub fn replay(config: CascadeConfig, outcomes: Vec<ProbeOutcome>) -> (r: DetectionRecord)
        ensures
            r@ == CascadeState::initial(config).run(script(outcomes@)).record,
            r@.wf(),
    {
        let ghost all = script(outcomes@);
        let ghost mut done: int = 0;
        let mut cascade = DetectionCascade::start(config);
        let mut rest = outcomes;
        while rest.len() > 0
            invariant
                0 <= done <= all.len(),
                rest.len() + done == all.len(),
                script(rest@) == all.skip(done),
                cascade@ == CascadeState::initial(config).run(all.take(done)),
            decreases rest.len(),
        {
            let ghost before = rest@;
            let outcome = rest.remove(0);
            cascade.report(outcome);
            proof {
                assert(outcome@ == script(before)[0]);
                assert(all.take(done + 1).drop_last() =~= all.take(done));
                assert forall|j: int| 0 <= j < rest.len() implies script(rest@)[j] == all.skip(
                    done + 1,
                )[j] by {
                    assert(script(before)[j + 1] == all.skip(done)[j + 1]);
                }
                done = done + 1;
            }
        }
        cascade.into_record()
    }
}

/// The state after `outcome` has been reported, where a mandatory source is
/// pending; the state itself where none is.
pub open spec fn feed(state: CascadeState, outcome: Outcome) -> CascadeState {
    if state.pending is Some && state.pending->Some_0.is_mandatory() {
        state.step(outcome)
    } else {
        state
    }
}

/// The state in which a cascade leaves the mandatory sources, given what
/// each of them would report when asked.
pub open spec fn after_mandatory(
    config: CascadeConfig,
    registry: Outcome,
    vendor: Outcome,
    filesystem: Outcome,
) -> CascadeState {
    feed(feed(feed(CascadeState::initial(config), registry), vendor), filesystem)
}

/// The baseline that the mandatory sources establish, given what each of
/// them would report when asked: that of the first, in the order of
/// precedence, that found the product.
pub open spec fn baseline(registry: Outcome, vendor: Outcome, filesystem: Outcome) -> Record {
    if registry.positive() {
        Record::adopt(SourceTag::RegistryUninstall, registry.evidence->Some_0)
    } else if vendor.positive() {
        Record::adopt(SourceTag::VendorRegistry, vendor.evidence->Some_0)
    } else if filesystem.positive() {
        Record::adopt(SourceTag::FilesystemPath, filesystem.evidence->Some_0)
    } else {
        Record::absent()
    }
}

/// Every cascade starts in a state of which the invariant holds.
pub proof fn lemma_initial_inv(config: CascadeConfig)
    ensures
        CascadeState::initial(config).inv(),
{
}

/// A step keeps the invariant.
pub proof fn lemma_step_inv(state: CascadeState, outcome: Outcome)
    requires
        state.inv(),
    ensures
        state.step(outcome).inv(),
        state.step(outcome).config == state.config,
{
}

/// A run keeps the invariant.
pub proof fn lemma_run_inv(state: CascadeState, outcomes: Seq<Outcome>)
    requires
        state.inv(),
    ensures
        state.run(outcomes).inv(),
        state.run(outcomes).config == state.config,
    decreases outcomes.len(),
{
    if outcomes.len() > 0 {
        lemma_run_inv(state, outcomes.drop_last());
        lemma_step_inv(state.run(outcomes.drop_last()), outcomes.last());
    }
}

/// The number of sources that a state may still ask.
pub open spec fn rank(state: CascadeState) -> int {
    match state.pending {
        Some(SourceTag::RegistryUninstall) => 5,
        Some(SourceTag::VendorRegistry) => 4,
        Some(SourceTag::FilesystemPath) => 3,
        Some(SourceTag::NetworkProtocol) => 2,
        Some(SourceTag::Database) => 1,
        None => 0,
    }
}

/// Every report brings a cascade nearer to its end.
pub proof fn lemma_step_rank(state: CascadeState, outcome: Outcome)
    ensures
        state.pending is Some ==> rank(state.step(outcome)) < rank(state),
        state.pending is None ==> state.step(outcome) == state,
{
}

/// A cascade asks no source twice: after as many reports as the state had
/// sources left to ask, it has finished.
pub proof fn lemma_run_finishes(state: CascadeState, outcomes: Seq<Outcome>)
    ensures
        rank(state.run(outcomes)) <= rank(state),
        rank(state.run(outcomes)) + outcomes.len() <= rank(state) || state.run(outcomes).pending
            is None,
        outcomes.len() >= 5 ==> state.run(outcomes).pending is None,
    decreases outcomes.len(),
{
    if outcomes.len() > 0 {
        lemma_run_finishes(state, outcomes.drop_last());
        lemma_step_rank(state.run(outcomes.drop_last()), outcomes.last());
    }
}

/// The first positive wins: a cascade leaves the mandatory sources with the
/// baseline of the first of them that found the product, and the sources
/// behind it are not asked. Where none found it the cascade has finished,
/// so that no optional source is asked either.
pub proof fn lemma_baseline(
    config: CascadeConfig,
    registry: Outcome,
    vendor: Outcome,
    filesystem: Outcome,
)
    ensures
        after_mandatory(config, registry, vendor, filesystem).record == baseline(
            registry,
            vendor,
            filesystem,
        ),
        after_mandatory(config, registry, vendor, filesystem).pending is Some ==> !after_mandatory(
            config,
            registry,
            vendor,
            filesystem,
        ).pending->Some_0.is_mandatory(),
        !baseline(registry, vendor, filesystem).installed ==> after_mandatory(
            config,
            registry,
            vendor,
            filesystem,
        ).pending is None,
{
}

/// Precedence: where the registry's uninstall entries and the file system
/// both show the product, the baseline is that of the registry, whatever the
/// other sources would report.
pub proof fn lemma_precedence(
    config: CascadeConfig,
    registry: Outcome,
    vendor: Outcome,
    filesystem: Outcome,
)
    requires
        registry.positive(),
        filesystem.positive(),
    ensures
        after_mandatory(config, registry, vendor, filesystem).record == Record::adopt(
            SourceTag::RegistryUninstall,
            registry.evidence->Some_0,
        ),
{
    lemma_baseline(config, registry, vendor, filesystem);
}

/// Override, not reset: where an optional source reports a version and no
/// variant, the record keeps its variant, takes the version, and names that
/// source.
pub proof fn lemma_override(state: CascadeState, outcome: Outcome)
    requires
        state.inv(),
        state.pending is Some,
        !state.pending->Some_0.is_mandatory(),
        outcome.evidence is Some,
        outcome.evidence->Some_0.variant is None,
        outcome.evidence->Some_0.version is Some,
    ensures
        state.step(outcome).record.installed,
        state.step(outcome).record.variant == state.record.variant,
        state.step(outcome).record.version == outcome.evidence->Some_0.version,
        state.step(outcome).record.source == state.pending,
        state.step(outcome).record.install_path == state.record.install_path,
{
}

/// A source that reports no evidence leaves the record as it is.
pub proof fn lemma_no_evidence(state: CascadeState, outcome: Outcome)
    requires
        outcome.evidence is None,
    ensures
        state.step(outcome).record == state.record,
{
}

/// No false negative: once the product is found, no later outcome takes that
/// back or changes the install path.
pub proof fn lemma_found_stays_found(state: CascadeState, outcomes: Seq<Outcome>)
    requires
        state.inv(),
        state.record.installed,
    ensures
        state.run(outcomes).record.installed,
        state.run(outcomes).record.install_path == state.record.install_path,
    decreases outcomes.len(),
{
    if outcomes.len() > 0 {
        lemma_found_stays_found(state, outcomes.drop_last());
        lemma_run_inv(state, outcomes.drop_last());
    }
}

/// A run over two lists of outcomes, one after the other, is the run over
/// the second from where the run over the first ends.
pub proof fn lemma_run_concat(state: CascadeState, first: Seq<Outcome>, second: Seq<Outcome>)
    ensures
        state.run(first + second) == state.run(first).run(second),
    decreases second.len(),
{
    if second.len() == 0 {
        assert(first + second =~= first);
    } else {
        lemma_run_concat(state, first, second.drop_last());
        assert((first + second).drop_last() =~= first + second.drop_last());
    }
}

/// Precedence in a whole run: where the first source asked finds the
/// product, the record at the end of the run is installed, with the install
/// path that this source gave, whatever the later outcomes are.
pub proof fn lemma_run_precedence(config: CascadeConfig, outcomes: Seq<Outcome>)
    requires
        outcomes.len() > 0,
        outcomes[0].positive(),
    ensures
        CascadeState::initial(config).run(outcomes).record.installed,
        CascadeState::initial(config).run(outcomes).record.install_path
            == outcomes[0].evidence->Some_0.install_path,
{
    let start = CascadeState::initial(config);
    let first = seq![outcomes[0]];
    let rest = outcomes.skip(1);
    assert(first + rest =~= outcomes);
    lemma_run_concat(start, first, rest);
    assert(start.run(first) == start.step(outcomes[0])) by {
        assert(start.run(first.drop_last()) == start);
    }
    lemma_step_inv(start, outcomes[0]);
    lemma_found_stays_found(start.step(outcomes[0]), rest);
}

/// The time that a run took: the sum of what the outcomes took that were
/// reported while a source was pending.
pub open spec fn spent(state: CascadeState, outcomes: Seq<Outcome>) -> int
    decreases outcomes.len(),
{
    if outcomes.len() == 0 {
        0
    } else {
        let before = state.run(outcomes.drop_last());
        spent(state, outcomes.drop_last()) + if before.pending is Some {
            outcomes.last().elapsed_ms as int
        } else {
            0
        }
    }
}

/// Each outcome came back in time: at once from a mandatory source, and from
/// an optional one within `slack` milliseconds of the time it was granted.
pub open spec fn timely(state: CascadeState, outcomes: Seq<Outcome>, slack: int) -> bool
    decreases outcomes.len(),
{
    if outcomes.len() == 0 {
        true
    } else {
        let before = state.run(outcomes.drop_last());
        timely(state, outcomes.drop_last(), slack) && match before.pending {
            Some(source) => if source.is_mandatory() {
                outcomes.last().elapsed_ms == 0
            } else {
                outcomes.last().elapsed_ms <= granted(before.config, source, before.remaining_ms)
                    + slack
            },
            None => true,
        }
    }
}

/// The time that a run was allowed: the sum of the timeouts granted to the
/// optional sources that were asked.
pub open spec fn allowed(state: CascadeState, outcomes: Seq<Outcome>) -> int
    decreases outcomes.len(),
{
    if outcomes.len() == 0 {
        0
    } else {
        let before = state.run(outcomes.drop_last());
        allowed(state, outcomes.drop_last()) + match before.pending {
            Some(source) => if source.is_mandatory() {
                0
            } else {
                granted(before.config, source, before.remaining_ms) as int
            },
            None => 0,
        }
    }
}

/// Where the mandatory sources answer at once and each optional source
/// answers within the time it was granted, a run takes no longer than the
/// timeouts of the sources that were asked, taken together.
pub proof fn lemma_within_timeouts(state: CascadeState, outcomes: Seq<Outcome>)
    requires
        timely(state, outcomes, 0),
    ensures
        spent(state, outcomes) <= allowed(state, outcomes),
    decreases outcomes.len(),
{
    if outcomes.len() > 0 {
        lemma_within_timeouts(state, outcomes.drop_last());
    }
}

/// The budget bound: where the mandatory sources answer at once and each
/// optional source answers within `slack` of the time it was granted, a run
/// takes no longer than the budget and `slack` together; and while it has
/// overrun the budget no further source is asked.
pub proof fn lemma_budget(config: CascadeConfig, outcomes: Seq<Outcome>, slack: int)
    requires
        0 <= slack,
        timely(CascadeState::initial(config), outcomes, slack),
    ensures
        spent(CascadeState::initial(config), outcomes) <= config.total_budget_ms + slack,
        spent(CascadeState::initial(config), outcomes) > config.total_budget_ms
            ==> CascadeState::initial(config).run(outcomes).pending is None,
        spent(CascadeState::initial(config), outcomes) + CascadeState::initial(config).run(
            outcomes,
        ).remaining_ms <= config.total_budget_ms || CascadeState::initial(config).run(
            outcomes,
        ).pending is None,
    decreases outcomes.len(),
{
    let start = CascadeState::initial(config);
    if outcomes.len() > 0 {
        lemma_budget(config, outcomes.drop_last(), slack);
        lemma_run_inv(start, outcomes.drop_last());
    }
}

} // verus!
