//! Shared vocabulary of Engineering Objects: kinds, states and their stable
//! string forms.

use vstd::prelude::*;

verus! {
/// Kind of an Observation.
#[derive(Clone, Copy, PartialEq, Eq, Debug, Structural)]
pub enum ObservationKind {
    Repository,
    Commit,
    PullRequest,
    ChangedFiles,
    CheckResult,
    TestOutput,
    WorkflowRun,
    Observability,
    Infrastructure,
    Event,
    UserInput,
}

impl ObservationKind {
    /// Stable string form.
    pub open spec fn text(self) -> Seq<char> {
        match self {
            ObservationKind::Repository => "repository"@,
            ObservationKind::Commit => "commit"@,
            ObservationKind::PullRequest => "pull_request"@,
            ObservationKind::ChangedFiles => "changed_files"@,
            ObservationKind::CheckResult => "check_result"@,
            ObservationKind::TestOutput => "test_output"@,
            ObservationKind::WorkflowRun => "workflow_run"@,
            ObservationKind::Observability => "observability"@,
            ObservationKind::Infrastructure => "infrastructure"@,
            ObservationKind::Event => "event"@,
            ObservationKind::UserInput => "user_input"@,
        }
    }

    /// Stable string form.
    pub fn as_str(self) -> (r: &'static str)
        ensures
            r@ == self.text(),
    {
        match self {
            ObservationKind::Repository => "repository",
            ObservationKind::Commit => "commit",
            ObservationKind::PullRequest => "pull_request",
            ObservationKind::ChangedFiles => "changed_files",
            ObservationKind::CheckResult => "check_result",
            ObservationKind::TestOutput => "test_output",
            ObservationKind::WorkflowRun => "workflow_run",
            ObservationKind::Observability => "observability",
            ObservationKind::Infrastructure => "infrastructure",
            ObservationKind::Event => "event",
            ObservationKind::UserInput => "user_input",
        }
    }
}

/// Outcome of a Verification Receipt.
#[derive(Clone, Copy, PartialEq, Eq, Debug, Structural)]
pub enum VerificationResult {
    Pass,
    Fail,
    Inconclusive,
}

impl VerificationResult {
    /// Stable string form.
    pub open spec fn text(self) -> Seq<char> {
        match self {
            VerificationResult::Pass => "pass"@,
            VerificationResult::Fail => "fail"@,
            VerificationResult::Inconclusive => "inconclusive"@,
        }
    }

    /// Stable string form.
    pub fn as_str(self) -> (r: &'static str)
        ensures
            r@ == self.text(),
    {
        match self {
            VerificationResult::Pass => "pass",
            VerificationResult::Fail => "fail",
            VerificationResult::Inconclusive => "inconclusive",
        }
    }
}

/// Disposition recorded by a Learning Outcome.
#[derive(Clone, Copy, PartialEq, Eq, Debug, Structural)]
pub enum OutcomeDisposition {
    Accepted,
    Rejected,
    Successful,
    Unsuccessful,
    Ignored,
}

impl OutcomeDisposition {
    /// Stable string form.
    pub open spec fn text(self) -> Seq<char> {
        match self {
            OutcomeDisposition::Accepted => "accepted"@,
            OutcomeDisposition::Rejected => "rejected"@,
            OutcomeDisposition::Successful => "successful"@,
            OutcomeDisposition::Unsuccessful => "unsuccessful"@,
            OutcomeDisposition::Ignored => "ignored"@,
        }
    }

    /// Stable string form.
    pub fn as_str(self) -> (r: &'static str)
        ensures
            r@ == self.text(),
    {
        match self {
            OutcomeDisposition::Accepted => "accepted",
            OutcomeDisposition::Rejected => "rejected",
            OutcomeDisposition::Successful => "successful",
            OutcomeDisposition::Unsuccessful => "unsuccessful",
            OutcomeDisposition::Ignored => "ignored",
        }
    }
}

/// Kind of a relationship between two Investigations.
#[derive(Clone, Copy, PartialEq, Eq, Debug, Structural)]
pub enum RelationshipKind {
    ExplicitLink,
    SharedRepository,
    SharedCommit,
    SharedPullRequest,
    SharedFilePath,
    SharedConnectorSource,
    SimilarObservations,
    SharedEvaluationCategory,
    RelatedVerificationOutcome,
    RepeatedFailureSignature,
    RelatedRecommendation,
    RelatedLearningOutcome,
}

impl RelationshipKind {
    /// Stable string form.
    pub open spec fn text(self) -> Seq<char> {
        match self {
            RelationshipKind::ExplicitLink => "explicit_link"@,
            RelationshipKind::SharedRepository => "shared_repository"@,
            RelationshipKind::SharedCommit => "shared_commit"@,
            RelationshipKind::SharedPullRequest => "shared_pull_request"@,
            RelationshipKind::SharedFilePath => "shared_file_path"@,
            RelationshipKind::SharedConnectorSource => "shared_connector_source"@,
            RelationshipKind::SimilarObservations => "similar_observations"@,
            RelationshipKind::SharedEvaluationCategory => "shared_evaluation_category"@,
            RelationshipKind::RelatedVerificationOutcome => "related_verification_outcome"@,
            RelationshipKind::RepeatedFailureSignature => "repeated_failure_signature"@,
            RelationshipKind::RelatedRecommendation => "related_recommendation"@,
            RelationshipKind::RelatedLearningOutcome => "related_learning_outcome"@,
        }
    }

    /// Stable string form.
    pub fn as_str(self) -> (r: &'static str)
        ensures
            r@ == self.text(),
    {
        match self {
            RelationshipKind::ExplicitLink => "explicit_link",
            RelationshipKind::SharedRepository => "shared_repository",
            RelationshipKind::SharedCommit => "shared_commit",
            RelationshipKind::SharedPullRequest => "shared_pull_request",
            RelationshipKind::SharedFilePath => "shared_file_path",
            RelationshipKind::SharedConnectorSource => "shared_connector_source",
            RelationshipKind::SimilarObservations => "similar_observations",
            RelationshipKind::SharedEvaluationCategory => "shared_evaluation_category",
            RelationshipKind::RelatedVerificationOutcome => "related_verification_outcome",
            RelationshipKind::RepeatedFailureSignature => "repeated_failure_signature",
            RelationshipKind::RelatedRecommendation => "related_recommendation",
            RelationshipKind::RelatedLearningOutcome => "related_learning_outcome",
        }
    }
}

/// Severity of an Evaluation or risk.
#[derive(Clone, Copy, PartialEq, Eq, Debug, Structural)]
pub enum Severity {
    Info,
    Low,
    Medium,
    High,
    Critical,
}

impl Severity {
    /// Stable string form.
    pub open spec fn text(self) -> Seq<char> {
        match self {
            Severity::Info => "info"@,
            Severity::Low => "low"@,
            Severity::Medium => "medium"@,
            Severity::High => "high"@,
            Severity::Critical => "critical"@,
        }
    }

    /// Stable string form.
    pub fn as_str(self) -> (r: &'static str)
        ensures
            r@ == self.text(),
    {
        match self {
            Severity::Info => "info",
            Severity::Low => "low",
            Severity::Medium => "medium",
            Severity::High => "high",
            Severity::Critical => "critical",
        }
    }
}

/// Type of an Evaluation.
#[derive(Clone, Copy, PartialEq, Eq, Debug, Structural)]
pub enum AssessmentType {
    Risk,
    Health,
    Readiness,
    Confidence,
}

impl AssessmentType {
    /// Stable string form.
    pub open spec fn text(self) -> Seq<char> {
        match self {
            AssessmentType::Risk => "risk"@,
            AssessmentType::Health => "health"@,
            AssessmentType::Readiness => "readiness"@,
            AssessmentType::Confidence => "confidence"@,
        }
    }

    /// Stable string form.
    pub fn as_str(self) -> (r: &'static str)
        ensures
            r@ == self.text(),
    {
        match self {
            AssessmentType::Risk => "risk",
            AssessmentType::Health => "health",
            AssessmentType::Readiness => "readiness",
            AssessmentType::Confidence => "confidence",
        }
    }
}

/// Kind of a Knowledge object.
#[derive(Clone, Copy, PartialEq, Eq, Debug, Structural)]
pub enum KnowledgeKind {
    Summary,
    Activity,
    RiskSignal,
    Pattern,
}

impl KnowledgeKind {
    /// Stable string form.
    pub open spec fn text(self) -> Seq<char> {
        match self {
            KnowledgeKind::Summary => "summary"@,
            KnowledgeKind::Activity => "activity"@,
            KnowledgeKind::RiskSignal => "risk_signal"@,
            KnowledgeKind::Pattern => "pattern"@,
        }
    }

    /// Stable string form.
    pub fn as_str(self) -> (r: &'static str)
        ensures
            r@ == self.text(),
    {
        match self {
            KnowledgeKind::Summary => "summary",
            KnowledgeKind::Activity => "activity",
            KnowledgeKind::RiskSignal => "risk_signal",
            KnowledgeKind::Pattern => "pattern",
        }
    }
}

/// Lifecycle status of an Investigation.
#[derive(Clone, Copy, PartialEq, Eq, Debug, Structural)]
pub enum InvestigationStatus {
    Created,
    Collecting,
    Understanding,
    Evaluating,
    Verifying,
    Recommending,
    Learning,
    Completed,
}

impl InvestigationStatus {
    /// Stable string form.
    pub open spec fn text(self) -> Seq<char> {
        match self {
            InvestigationStatus::Created => "created"@,
            InvestigationStatus::Collecting => "collecting"@,
            InvestigationStatus::Understanding => "understanding"@,
            InvestigationStatus::Evaluating => "evaluating"@,
            InvestigationStatus::Verifying => "verifying"@,
            InvestigationStatus::Recommending => "recommending"@,
            InvestigationStatus::Learning => "learning"@,
            InvestigationStatus::Completed => "completed"@,
        }
    }

    /// Stable string form.
    pub fn as_str(self) -> (r: &'static str)
        ensures
            r@ == self.text(),
    {
        match self {
            InvestigationStatus::Created => "created",
            InvestigationStatus::Collecting => "collecting",
            InvestigationStatus::Understanding => "understanding",
            InvestigationStatus::Evaluating => "evaluating",
            InvestigationStatus::Verifying => "verifying",
            InvestigationStatus::Recommending => "recommending",
            InvestigationStatus::Learning => "learning",
            InvestigationStatus::Completed => "completed",
        }
    }
}

/// Review status of a Recommendation. Recommendations are generated as
/// proposals and change only through a recorded outcome.
#[derive(Clone, Copy, PartialEq, Eq, Debug, Structural)]
pub enum RecommendationStatus {
    Proposed,
    Accepted,
    Rejected,
    Ignored,
}

impl RecommendationStatus {
    /// Stable string form.
    pub open spec fn text(self) -> Seq<char> {
        match self {
            RecommendationStatus::Proposed => "proposed"@,
            RecommendationStatus::Accepted => "accepted"@,
            RecommendationStatus::Rejected => "rejected"@,
            RecommendationStatus::Ignored => "ignored"@,
        }
    }

    /// Stable string form.
    pub fn as_str(self) -> (r: &'static str)
        ensures
            r@ == self.text(),
    {
        match self {
            RecommendationStatus::Proposed => "proposed",
            RecommendationStatus::Accepted => "accepted",
            RecommendationStatus::Rejected => "rejected",
            RecommendationStatus::Ignored => "ignored",
        }
    }
}

/// Human confirmation state of a relationship.
#[derive(Clone, Copy, PartialEq, Eq, Debug, Structural)]
pub enum ConfirmationState {
    Unconfirmed,
    Confirmed,
    Dismissed,
}

impl ConfirmationState {
    /// Stable string form.
    pub open spec fn text(self) -> Seq<char> {
        match self {
            ConfirmationState::Unconfirmed => "unconfirmed"@,
            ConfirmationState::Confirmed => "confirmed"@,
            ConfirmationState::Dismissed => "dismissed"@,
        }
    }

    /// Stable string form.
    pub fn as_str(self) -> (r: &'static str)
        ensures
            r@ == self.text(),
    {
        match self {
            ConfirmationState::Unconfirmed => "unconfirmed",
            ConfirmationState::Confirmed => "confirmed",
            ConfirmationState::Dismissed => "dismissed",
        }
    }
}

/// Kind of an expected result of a Measured Learning Outcome.
#[derive(Clone, Copy, PartialEq, Eq, Debug, Structural)]
pub enum ExpectedResultKind {
    Boolean,
    NumericThreshold,
    DirectionalImprovement,
    LatencyDuration,
    ReliabilityRate,
    CountFrequency,
    TestResult,
    HumanAssessment,
}

impl ExpectedResultKind {
    /// Stable string form.
    pub open spec fn text(self) -> Seq<char> {
        match self {
            ExpectedResultKind::Boolean => "boolean"@,
            ExpectedResultKind::NumericThreshold => "numeric_threshold"@,
            ExpectedResultKind::DirectionalImprovement => "directional_improvement"@,
            ExpectedResultKind::LatencyDuration => "latency_duration"@,
            ExpectedResultKind::ReliabilityRate => "reliability_rate"@,
            ExpectedResultKind::CountFrequency => "count_frequency"@,
            ExpectedResultKind::TestResult => "test_result"@,
            ExpectedResultKind::HumanAssessment => "human_assessment"@,
        }
    }

    /// Stable string form.
    pub fn as_str(self) -> (r: &'static str)
        ensures
            r@ == self.text(),
    {
        match self {
            ExpectedResultKind::Boolean => "boolean",
            ExpectedResultKind::NumericThreshold => "numeric_threshold",
            ExpectedResultKind::DirectionalImprovement => "directional_improvement",
            ExpectedResultKind::LatencyDuration => "latency_duration",
            ExpectedResultKind::ReliabilityRate => "reliability_rate",
            ExpectedResultKind::CountFrequency => "count_frequency",
            ExpectedResultKind::TestResult => "test_result",
            ExpectedResultKind::HumanAssessment => "human_assessment",
        }
    }
}

/// Assessment of one expected result.
#[derive(Clone, Copy, PartialEq, Eq, Debug, Structural)]
pub enum ResultAssessmentKind {
    Satisfied,
    PartiallySatisfied,
    NotSatisfied,
    Regressed,
    Inconclusive,
    NotMeasured,
    Invalid,
}

impl ResultAssessmentKind {
    /// Stable string form.
    pub open spec fn text(self) -> Seq<char> {
        match self {
            ResultAssessmentKind::Satisfied => "satisfied"@,
            ResultAssessmentKind::PartiallySatisfied => "partially_satisfied"@,
            ResultAssessmentKind::NotSatisfied => "not_satisfied"@,
            ResultAssessmentKind::Regressed => "regressed"@,
            ResultAssessmentKind::Inconclusive => "inconclusive"@,
            ResultAssessmentKind::NotMeasured => "not_measured"@,
            ResultAssessmentKind::Invalid => "invalid"@,
        }
    }

    /// Stable string form.
    pub fn as_str(self) -> (r: &'static str)
        ensures
            r@ == self.text(),
    {
        match self {
            ResultAssessmentKind::Satisfied => "satisfied",
            ResultAssessmentKind::PartiallySatisfied => "partially_satisfied",
            ResultAssessmentKind::NotSatisfied => "not_satisfied",
            ResultAssessmentKind::Regressed => "regressed",
            ResultAssessmentKind::Inconclusive => "inconclusive",
            ResultAssessmentKind::NotMeasured => "not_measured",
            ResultAssessmentKind::Invalid => "invalid",
        }
    }
}

/// Overall classification of a Measured Learning Outcome.
#[derive(Clone, Copy, PartialEq, Eq, Debug, Structural)]
pub enum OutcomeClassification {
    Pending,
    Successful,
    PartiallySuccessful,
    Mixed,
    Unsuccessful,
    Regressed,
    Inconclusive,
    NotImplemented,
    Invalidated,
}

impl OutcomeClassification {
    /// Stable string form.
    pub open spec fn text(self) -> Seq<char> {
        match self {
            OutcomeClassification::Pending => "pending"@,
            OutcomeClassification::Successful => "successful"@,
            OutcomeClassification::PartiallySuccessful => "partially_successful"@,
            OutcomeClassification::Mixed => "mixed"@,
            OutcomeClassification::Unsuccessful => "unsuccessful"@,
            OutcomeClassification::Regressed => "regressed"@,
            OutcomeClassification::Inconclusive => "inconclusive"@,
            OutcomeClassification::NotImplemented => "not_implemented"@,
            OutcomeClassification::Invalidated => "invalidated"@,
        }
    }

    /// Stable string form.
    pub fn as_str(self) -> (r: &'static str)
        ensures
            r@ == self.text(),
    {
        match self {
            OutcomeClassification::Pending => "pending",
            OutcomeClassification::Successful => "successful",
            OutcomeClassification::PartiallySuccessful => "partially_successful",
            OutcomeClassification::Mixed => "mixed",
            OutcomeClassification::Unsuccessful => "unsuccessful",
            OutcomeClassification::Regressed => "regressed",
            OutcomeClassification::Inconclusive => "inconclusive",
            OutcomeClassification::NotImplemented => "not_implemented",
            OutcomeClassification::Invalidated => "invalidated",
        }
    }
}

/// Strength of causal wording an Outcome may use.
#[derive(Clone, Copy, PartialEq, Eq, Debug, Structural)]
pub enum CausalLanguage {
    ObservedAfterImplementation,
    CorrelatedWithImplementation,
    ConsistentWithExpectedMechanism,
}

impl CausalLanguage {
    /// Stable string form.
    pub open spec fn text(self) -> Seq<char> {
        match self {
            CausalLanguage::ObservedAfterImplementation => "observed_after_implementation"@,
            CausalLanguage::CorrelatedWithImplementation => "correlated_with_implementation"@,
            CausalLanguage::ConsistentWithExpectedMechanism => "consistent_with_expected_mechanism"@,
        }
    }

    /// Stable string form.
    pub fn as_str(self) -> (r: &'static str)
        ensures
            r@ == self.text(),
    {
        match self {
            CausalLanguage::ObservedAfterImplementation => "observed_after_implementation",
            CausalLanguage::CorrelatedWithImplementation => "correlated_with_implementation",
            CausalLanguage::ConsistentWithExpectedMechanism => "consistent_with_expected_mechanism",
        }
    }
}

/// Lifecycle status of an Implementation Record.
#[derive(Clone, Copy, PartialEq, Eq, Debug, Structural)]
pub enum ImplementationStatus {
    Reported,
    EvidenceLinked,
    ReadyForEvaluation,
    Withdrawn,
    Superseded,
}

impl ImplementationStatus {
    /// Stable string form.
    pub open spec fn text(self) -> Seq<char> {
        match self {
            ImplementationStatus::Reported => "reported"@,
            ImplementationStatus::EvidenceLinked => "evidence_linked"@,
            ImplementationStatus::ReadyForEvaluation => "ready_for_evaluation"@,
            ImplementationStatus::Withdrawn => "withdrawn"@,
            ImplementationStatus::Superseded => "superseded"@,
        }
    }

    /// Stable string form.
    pub fn as_str(self) -> (r: &'static str)
        ensures
            r@ == self.text(),
    {
        match self {
            ImplementationStatus::Reported => "reported",
            ImplementationStatus::EvidenceLinked => "evidence_linked",
            ImplementationStatus::ReadyForEvaluation => "ready_for_evaluation",
            ImplementationStatus::Withdrawn => "withdrawn",
            ImplementationStatus::Superseded => "superseded",
        }
    }
}

/// Where an implementation was reported from.
#[derive(Clone, Copy, PartialEq, Eq, Debug, Structural)]
pub enum ImplementationSource {
    GitCommit,
    PullRequest,
    Deployment,
    Patch,
    ExternalAgent,
    HumanDeclared,
}

impl ImplementationSource {
    /// Stable string form.
    pub open spec fn text(self) -> Seq<char> {
        match self {
            ImplementationSource::GitCommit => "git_commit"@,
            ImplementationSource::PullRequest => "pull_request"@,
            ImplementationSource::Deployment => "deployment"@,
            ImplementationSource::Patch => "patch"@,
            ImplementationSource::ExternalAgent => "external_agent"@,
            ImplementationSource::HumanDeclared => "human_declared"@,
        }
    }

    /// Stable string form.
    pub fn as_str(self) -> (r: &'static str)
        ensures
            r@ == self.text(),
    {
        match self {
            ImplementationSource::GitCommit => "git_commit",
            ImplementationSource::PullRequest => "pull_request",
            ImplementationSource::Deployment => "deployment",
            ImplementationSource::Patch => "patch",
            ImplementationSource::ExternalAgent => "external_agent",
            ImplementationSource::HumanDeclared => "human_declared",
        }
    }
}

/// How a linked object relates to a Measured Learning Outcome.
#[derive(Clone, Copy, PartialEq, Eq, Debug, Structural)]
pub enum OutcomeEvidenceRelation {
    ConfirmsImplementation,
    DisputesImplementation,
    IsBaseline,
    IsPostChange,
    SupportsExpectedResult,
    ContradictsExpectedResult,
    IndicatesRegression,
    IsDismissed,
}

impl OutcomeEvidenceRelation {
    /// Stable string form.
    pub open spec fn text(self) -> Seq<char> {
        match self {
            OutcomeEvidenceRelation::ConfirmsImplementation => "confirms_implementation"@,
            OutcomeEvidenceRelation::DisputesImplementation => "disputes_implementation"@,
            OutcomeEvidenceRelation::IsBaseline => "is_baseline"@,
            OutcomeEvidenceRelation::IsPostChange => "is_post_change"@,
            OutcomeEvidenceRelation::SupportsExpectedResult => "supports_expected_result"@,
            OutcomeEvidenceRelation::ContradictsExpectedResult => "contradicts_expected_result"@,
            OutcomeEvidenceRelation::IndicatesRegression => "indicates_regression"@,
            OutcomeEvidenceRelation::IsDismissed => "is_dismissed"@,
        }
    }

    /// Stable string form.
    pub fn as_str(self) -> (r: &'static str)
        ensures
            r@ == self.text(),
    {
        match self {
            OutcomeEvidenceRelation::ConfirmsImplementation => "confirms_implementation",
            OutcomeEvidenceRelation::DisputesImplementation => "disputes_implementation",
            OutcomeEvidenceRelation::IsBaseline => "is_baseline",
            OutcomeEvidenceRelation::IsPostChange => "is_post_change",
            OutcomeEvidenceRelation::SupportsExpectedResult => "supports_expected_result",
            OutcomeEvidenceRelation::ContradictsExpectedResult => "contradicts_expected_result",
            OutcomeEvidenceRelation::IndicatesRegression => "indicates_regression",
            OutcomeEvidenceRelation::IsDismissed => "is_dismissed",
        }
    }
}

/// Lifecycle status of a Measured Learning Outcome.
#[derive(Clone, Copy, PartialEq, Eq, Debug, Structural)]
pub enum MeasuredOutcomeStatus {
    Draft,
    EvidenceCollection,
    UnderEvaluation,
    Evaluated,
    Verified,
    Archived,
    Withdrawn,
    Superseded,
}

impl MeasuredOutcomeStatus {
    /// Stable string form.
    pub open spec fn text(self) -> Seq<char> {
        match self {
            MeasuredOutcomeStatus::Draft => "draft"@,
            MeasuredOutcomeStatus::EvidenceCollection => "evidence_collection"@,
            MeasuredOutcomeStatus::UnderEvaluation => "under_evaluation"@,
            MeasuredOutcomeStatus::Evaluated => "evaluated"@,
            MeasuredOutcomeStatus::Verified => "verified"@,
            MeasuredOutcomeStatus::Archived => "archived"@,
            MeasuredOutcomeStatus::Withdrawn => "withdrawn"@,
            MeasuredOutcomeStatus::Superseded => "superseded"@,
        }
    }

    /// Stable string form.
    pub fn as_str(self) -> (r: &'static str)
        ensures
            r@ == self.text(),
    {
        match self {
            MeasuredOutcomeStatus::Draft => "draft",
            MeasuredOutcomeStatus::EvidenceCollection => "evidence_collection",
            MeasuredOutcomeStatus::UnderEvaluation => "under_evaluation",
            MeasuredOutcomeStatus::Evaluated => "evaluated",
            MeasuredOutcomeStatus::Verified => "verified",
            MeasuredOutcomeStatus::Archived => "archived",
            MeasuredOutcomeStatus::Withdrawn => "withdrawn",
            MeasuredOutcomeStatus::Superseded => "superseded",
        }
    }
}

/// Materiality of a regression or contradiction.
#[derive(Clone, Copy, PartialEq, Eq, Debug, Structural)]
pub enum MaterialitySeverity {
    Moderate,
    Material,
    Critical,
}

impl MaterialitySeverity {
    /// Stable string form.
    pub open spec fn text(self) -> Seq<char> {
        match self {
            MaterialitySeverity::Moderate => "moderate"@,
            MaterialitySeverity::Material => "material"@,
            MaterialitySeverity::Critical => "critical"@,
        }
    }

    /// Stable string form.
    pub fn as_str(self) -> (r: &'static str)
        ensures
            r@ == self.text(),
    {
        match self {
            MaterialitySeverity::Moderate => "moderate",
            MaterialitySeverity::Material => "material",
            MaterialitySeverity::Critical => "critical",
        }
    }
}

/// Category of an Improvement Proposal.
#[derive(Clone, Copy, PartialEq, Eq, Debug, Structural)]
pub enum ProposalCategory {
    Code,
    Configuration,
    Testing,
    Reliability,
    Performance,
    Security,
    Documentation,
}

impl ProposalCategory {
    /// Stable string form.
    pub open spec fn text(self) -> Seq<char> {
        match self {
            ProposalCategory::Code => "code"@,
            ProposalCategory::Configuration => "configuration"@,
            ProposalCategory::Testing => "testing"@,
            ProposalCategory::Reliability => "reliability"@,
            ProposalCategory::Performance => "performance"@,
            ProposalCategory::Security => "security"@,
            ProposalCategory::Documentation => "documentation"@,
        }
    }

    /// Stable string form.
    pub fn as_str(self) -> (r: &'static str)
        ensures
            r@ == self.text(),
    {
        match self {
            ProposalCategory::Code => "code",
            ProposalCategory::Configuration => "configuration",
            ProposalCategory::Testing => "testing",
            ProposalCategory::Reliability => "reliability",
            ProposalCategory::Performance => "performance",
            ProposalCategory::Security => "security",
            ProposalCategory::Documentation => "documentation",
        }
    }
}

/// Priority of an Improvement Proposal.
#[derive(Clone, Copy, PartialEq, Eq, Debug, Structural)]
pub enum ProposalPriority {
    Critical,
    High,
    Medium,
    Low,
    Exploratory,
}

impl ProposalPriority {
    /// Stable string form.
    pub open spec fn text(self) -> Seq<char> {
        match self {
            ProposalPriority::Critical => "critical"@,
            ProposalPriority::High => "high"@,
            ProposalPriority::Medium => "medium"@,
            ProposalPriority::Low => "low"@,
            ProposalPriority::Exploratory => "exploratory"@,
        }
    }

    /// Stable string form.
    pub fn as_str(self) -> (r: &'static str)
        ensures
            r@ == self.text(),
    {
        match self {
            ProposalPriority::Critical => "critical",
            ProposalPriority::High => "high",
            ProposalPriority::Medium => "medium",
            ProposalPriority::Low => "low",
            ProposalPriority::Exploratory => "exploratory",
        }
    }
}

/// Estimated effort of an Improvement Proposal.
#[derive(Clone, Copy, PartialEq, Eq, Debug, Structural)]
pub enum ProposalEffort {
    Small,
    Medium,
    Large,
}

impl ProposalEffort {
    /// Stable string form.
    pub open spec fn text(self) -> Seq<char> {
        match self {
            ProposalEffort::Small => "small"@,
            ProposalEffort::Medium => "medium"@,
            ProposalEffort::Large => "large"@,
        }
    }

    /// Stable string form.
    pub fn as_str(self) -> (r: &'static str)
        ensures
            r@ == self.text(),
    {
        match self {
            ProposalEffort::Small => "small",
            ProposalEffort::Medium => "medium",
            ProposalEffort::Large => "large",
        }
    }
}

/// Temporal scope of an evidence reference.
#[derive(Clone, Copy, PartialEq, Eq, Debug, Structural)]
pub enum EvidenceScope {
    Current,
    Historical,
}

impl EvidenceScope {
    /// Stable string form.
    pub open spec fn text(self) -> Seq<char> {
        match self {
            EvidenceScope::Current => "current"@,
            EvidenceScope::Historical => "historical"@,
        }
    }

    /// Stable string form.
    pub fn as_str(self) -> (r: &'static str)
        ensures
            r@ == self.text(),
    {
        match self {
            EvidenceScope::Current => "current",
            EvidenceScope::Historical => "historical",
        }
    }
}

/// Status of a Learning Pattern.
#[derive(Clone, Copy, PartialEq, Eq, Debug, Structural)]
pub enum PatternStatus {
    Emerging,
    Supported,
    Contested,
    Retired,
}

impl PatternStatus {
    /// Stable string form.
    pub open spec fn text(self) -> Seq<char> {
        match self {
            PatternStatus::Emerging => "emerging"@,
            PatternStatus::Supported => "supported"@,
            PatternStatus::Contested => "contested"@,
            PatternStatus::Retired => "retired"@,
        }
    }

    /// Stable string form.
    pub fn as_str(self) -> (r: &'static str)
        ensures
            r@ == self.text(),
    {
        match self {
            PatternStatus::Emerging => "emerging",
            PatternStatus::Supported => "supported",
            PatternStatus::Contested => "contested",
            PatternStatus::Retired => "retired",
        }
    }
}

/// Lifecycle status of an Improvement Proposal.
#[derive(Clone, Copy, PartialEq, Eq, Debug, Structural)]
pub enum ProposalStatus {
    Draft,
    Proposed,
    Accepted,
    Rejected,
    Deferred,
    Superseded,
    Withdrawn,
}

impl ProposalStatus {
    /// Stable string form.
    pub open spec fn text(self) -> Seq<char> {
        match self {
            ProposalStatus::Draft => "draft"@,
            ProposalStatus::Proposed => "proposed"@,
            ProposalStatus::Accepted => "accepted"@,
            ProposalStatus::Rejected => "rejected"@,
            ProposalStatus::Deferred => "deferred"@,
            ProposalStatus::Superseded => "superseded"@,
            ProposalStatus::Withdrawn => "withdrawn"@,
        }
    }

    /// Stable string form.
    pub fn as_str(self) -> (r: &'static str)
        ensures
            r@ == self.text(),
    {
        match self {
            ProposalStatus::Draft => "draft",
            ProposalStatus::Proposed => "proposed",
            ProposalStatus::Accepted => "accepted",
            ProposalStatus::Rejected => "rejected",
            ProposalStatus::Deferred => "deferred",
            ProposalStatus::Superseded => "superseded",
            ProposalStatus::Withdrawn => "withdrawn",
        }
    }
}

/// How a Proposal was generated.
#[derive(Clone, Copy, PartialEq, Eq, Debug, Structural)]
pub enum ProposalGenerationMethod {
    Deterministic,
    Human,
}

impl ProposalGenerationMethod {
    /// Stable string form.
    pub open spec fn text(self) -> Seq<char> {
        match self {
            ProposalGenerationMethod::Deterministic => "deterministic"@,
            ProposalGenerationMethod::Human => "human"@,
        }
    }

    /// Stable string form.
    pub fn as_str(self) -> (r: &'static str)
        ensures
            r@ == self.text(),
    {
        match self {
            ProposalGenerationMethod::Deterministic => "deterministic",
            ProposalGenerationMethod::Human => "human",
        }
    }
}

/// Type of a recorded regression.
#[derive(Clone, Copy, PartialEq, Eq, Debug, Structural)]
pub enum RegressionType {
    Latency,
    Reliability,
    Correctness,
    Other,
}

impl RegressionType {
    /// Stable string form.
    pub open spec fn text(self) -> Seq<char> {
        match self {
            RegressionType::Latency => "latency"@,
            RegressionType::Reliability => "reliability"@,
            RegressionType::Correctness => "correctness"@,
            RegressionType::Other => "other"@,
        }
    }

    /// Stable string form.
    pub fn as_str(self) -> (r: &'static str)
        ensures
            r@ == self.text(),
    {
        match self {
            RegressionType::Latency => "latency",
            RegressionType::Reliability => "reliability",
            RegressionType::Correctness => "correctness",
            RegressionType::Other => "other",
        }
    }
}


/// Status of a Hypothesis.
#[derive(Clone, Copy, PartialEq, Eq, Debug, Structural)]
pub enum HypothesisStatus {
    Proposed,
    Supported,
    Contradicted,
    Inconclusive,
    Verified,
    Rejected,
}

impl HypothesisStatus {
    /// Stable string form.
    pub open spec fn text(self) -> Seq<char> {
        match self {
            HypothesisStatus::Proposed => "proposed"@,
            HypothesisStatus::Supported => "supported"@,
            HypothesisStatus::Contradicted => "contradicted"@,
            HypothesisStatus::Inconclusive => "inconclusive"@,
            HypothesisStatus::Verified => "verified"@,
            HypothesisStatus::Rejected => "rejected"@,
        }
    }

    /// Stable string form.
    pub fn as_str(self) -> (r: &'static str)
        ensures
            r@ == self.text(),
    {
        match self {
            HypothesisStatus::Proposed => "proposed",
            HypothesisStatus::Supported => "supported",
            HypothesisStatus::Contradicted => "contradicted",
            HypothesisStatus::Inconclusive => "inconclusive",
            HypothesisStatus::Verified => "verified",
            HypothesisStatus::Rejected => "rejected",
        }
    }
}

/// Overall deployment readiness verdict.
#[derive(Clone, Copy, PartialEq, Eq, Debug, Structural)]
pub enum ReadinessStatus {
    Ready,
    Hold,
    Inspect,
    Unknown,
}

impl ReadinessStatus {
    /// Stable string form.
    pub open spec fn text(self) -> Seq<char> {
        match self {
            ReadinessStatus::Ready => "ready"@,
            ReadinessStatus::Hold => "hold"@,
            ReadinessStatus::Inspect => "inspect"@,
            ReadinessStatus::Unknown => "unknown"@,
        }
    }

    /// Stable string form.
    pub fn as_str(self) -> (r: &'static str)
        ensures
            r@ == self.text(),
    {
        match self {
            ReadinessStatus::Ready => "ready",
            ReadinessStatus::Hold => "hold",
            ReadinessStatus::Inspect => "inspect",
            ReadinessStatus::Unknown => "unknown",
        }
    }
}

/// Category of a forecast risk.
#[derive(Clone, Copy, PartialEq, Eq, Debug, Structural)]
pub enum RiskCategory {
    Regression,
    Deployment,
    Verification,
    EvidenceQuality,
    Recurrence,
    Operational,
}

impl RiskCategory {
    /// Stable string form.
    pub open spec fn text(self) -> Seq<char> {
        match self {
            RiskCategory::Regression => "regression"@,
            RiskCategory::Deployment => "deployment"@,
            RiskCategory::Verification => "verification"@,
            RiskCategory::EvidenceQuality => "evidence_quality"@,
            RiskCategory::Recurrence => "recurrence"@,
            RiskCategory::Operational => "operational"@,
        }
    }

    /// Stable string form.
    pub fn as_str(self) -> (r: &'static str)
        ensures
            r@ == self.text(),
    {
        match self {
            RiskCategory::Regression => "regression",
            RiskCategory::Deployment => "deployment",
            RiskCategory::Verification => "verification",
            RiskCategory::EvidenceQuality => "evidence_quality",
            RiskCategory::Recurrence => "recurrence",
            RiskCategory::Operational => "operational",
        }
    }
}

} // verus!
