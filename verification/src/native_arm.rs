//! Arming the provider's own merge on pull requests that are ready and that the
//! steward will never enqueue itself.
use vstd::prelude::*;

use crate::guard::ends_with_its_end;
use crate::model::{ObservedPr, RepoObservation, StewardDecision};
use crate::json::{json_of, parse_json, Json};
use crate::plan::PrReport;
use crate::text::{
    concat, concat3, concat4, concat5, cut, decimal, has_suffix, opt_view, split_once, to_decimal,
    views,
};

verus! {

/// The answer to a question about the queue, as the document that it is given in.
pub fn queue_state_document(read: &Result<String, String>) -> (r: Result<Json, String>)
    ensures
        match *read {
            Ok(raw) => match json_of(raw@) {
                Ok(t) => r matches Ok(document) && document@ == t,
                Err(m) => r matches Err(e) && e@ == "malformed GraphQL JSON: "@ + m,
            },
            Err(error) => r matches Err(e) && e@ == error@,
        },
{
    match read {
        Err(error) => Err(error.clone()),
        Ok(raw) => match parse_json(raw.as_str()) {
            Ok(document) => Ok(document),
            Err(error) => Err(concat("malformed GraphQL JSON: ", error.as_str())),
        },
    }
}

/// Whether a decision is that the steward will never act on the pull request.
pub open spec fn declines(decision: StewardDecision) -> bool {
    decision is Unmanaged || decision is HandoffMissing
}

/// Whether a decision is that the steward will never act on the pull request.
pub fn steward_declines_ownership(decision: &StewardDecision) -> (r: bool)
    ensures
        r == declines(*decision),
{
    match decision {
        StewardDecision::Unmanaged => true,
        StewardDecision::HandoffMissing => true,
        _ => false,
    }
}

/// The steward never enqueues a pull request that is armed here, and nothing that
/// it enqueues or reruns is armed here.
pub proof fn arming_never_overlaps_enqueueing(decision: StewardDecision)
    requires
        declines(decision),
    ensures
        !(decision is ArmMergeQueue),
        !(decision is Queued),
        !(decision is RerunTransient),
        !(decision is OptedOut),
        !(decision is ProvenanceBlocked),
{
}

/// Whether the first report of a pull request says that the steward will never
/// act on it.
pub open spec fn declined(reports: Seq<PrReport>, number: u64) -> bool
    decreases reports.len(),
{
    if reports.len() == 0 {
        false
    } else if reports[0].number == number {
        declines(reports[0].decision)
    } else {
        declined(reports.skip(1), number)
    }
}

fn is_declined(reports: &Vec<PrReport>, number: u64) -> (r: bool)
    ensures
        r == declined(reports@, number),
{
    let mut i: usize = 0;
    proof {
        assert(reports@.skip(0) =~= reports@);
    }
    while i < reports.len()
        invariant
            i <= reports.len(),
            declined(reports@, number) == declined(reports@.skip(i as int), number),
        decreases reports.len() - i,
    {
        proof {
            assert(reports@.skip(i as int)[0] == reports@[i as int]);
            assert(reports@.skip(i as int).skip(1) =~= reports@.skip(i + 1));
        }
        if reports[i].number == number {
            return steward_declines_ownership(&reports[i].decision);
        }
        i = i + 1;
    }
    false
}

/// Whether a position is that of a candidate: the steward declines the pull
/// request, and it is ready as far as is known.
pub open spec fn is_candidate(
    prs: Seq<ObservedPr>,
    reports: Seq<PrReport>,
    ready: Seq<bool>,
    i: int,
) -> bool {
    0 <= i < prs.len() && declined(reports, prs[i].fact.number) && ready[i]
}

/// The positions of the candidates; `ready` says of each pull request whether it
/// is ready as far as is known.
pub fn select_candidates(prs: &Vec<ObservedPr>, reports: &Vec<PrReport>, ready: &Vec<bool>) -> (r:
    Vec<usize>)
    requires
        ready@.len() == prs@.len(),
    ensures
        forall|k: int| 0 <= k < r@.len() ==> is_candidate(
            prs@,
            reports@,
            ready@,
            #[trigger] r@[k] as int,
        ),
        forall|a: int, b: int| 0 <= a < b < r@.len() ==> r@[a] < r@[b],
        forall|i: int| #[trigger]
            is_candidate(prs@, reports@, ready@, i) ==> r@.contains(i as usize),
{
    let mut out: Vec<usize> = Vec::new();
    let mut i: usize = 0;
    while i < prs.len()
        invariant
            i <= prs.len(),
            ready@.len() == prs@.len(),
            forall|k: int| 0 <= k < out@.len() ==> #[trigger] out@[k] < i && is_candidate(
                prs@,
                reports@,
                ready@,
                out@[k] as int,
            ),
            forall|a: int, b: int| 0 <= a < b < out@.len() ==> out@[a] < out@[b],
            forall|j: int|
                0 <= j < i && #[trigger] is_candidate(prs@, reports@, ready@, j) ==> out@.contains(
                    j as usize,
                ),
        decreases prs.len() - i,
    {
        let ghost before = out@;
        if ready[i] && is_declined(reports, prs[i].fact.number) {
            out.push(i);
            proof {
                assert(out@[before.len() as int] == i);
                assert forall|j: int|
                    0 <= j < i + 1 && #[trigger] is_candidate(
                        prs@,
                        reports@,
                        ready@,
                        j,
                    ) implies out@.contains(j as usize) by {
                    if j < i {
                        let k = choose|k: int| 0 <= k < before.len() && before[k] == j as usize;
                        assert(out@[k] == j as usize);
                    }
                }
            }
        }
        i = i + 1;
    }
    out
}

/// Why a pull request was not armed.
#[derive(Clone, Debug, PartialEq, Eq)]
pub enum ArmSkip {
    /// Its state could not be told.
    Unknown { detail: String },
    /// Its state forbids it.
    State(String),
}

/// What became of a candidate.
#[derive(Clone, Debug, PartialEq, Eq)]
pub struct NativeArmResult {
    pub number: u64,
    pub head_sha: String,
    pub outcome: String,
    pub skip: Option<ArmSkip>,
    pub error: Option<String>,
}

/// What became of a candidate, in texts.
pub struct ArmView {
    pub number: u64,
    pub head_sha: Seq<char>,
    pub outcome: Seq<char>,
    pub unknown: Option<Seq<char>>,
    pub state: Option<Seq<char>>,
    pub error: Option<Seq<char>>,
}

impl View for NativeArmResult {
    type V = ArmView;

    open spec fn view(&self) -> ArmView {
        ArmView {
            number: self.number,
            head_sha: self.head_sha@,
            outcome: self.outcome@,
            unknown: match self.skip {
                Some(ArmSkip::Unknown { detail }) => Some(detail@),
                _ => None,
            },
            state: match self.skip {
                Some(ArmSkip::State(text)) => Some(text@),
                _ => None,
            },
            error: opt_view(self.error),
        }
    }
}

/// What was found of a candidate's place in the queue.
#[derive(Debug)]
pub enum QueueFinding {
    /// It can be armed.
    Arm,
    /// It must not be armed, for this reason.
    Skip(String),
    /// It could not be read.
    Unreadable(String),
}

/// What is done about a candidate.
#[derive(Debug)]
pub enum ArmStep {
    /// It is armed.
    Request,
    Result(NativeArmResult),
}

/// A candidate that nothing is done about.
pub open spec fn skipped(
    pr: ObservedPr,
    unknown: Option<Seq<char>>,
    state: Option<Seq<char>>,
    error: Option<Seq<char>>,
) -> ArmView {
    ArmView {
        number: pr.fact.number,
        head_sha: pr.fact.head_sha@,
        outcome: "skipped"@,
        unknown,
        state,
        error,
    }
}

/// What is done about a candidate: `None` means that it is armed.
pub open spec fn considered(pr: ObservedPr, finding: QueueFinding, apply: bool) -> Option<ArmView> {
    match finding {
        QueueFinding::Unreadable(detail) => Some(
            skipped(
                pr,
                Some(detail@),
                None,
                Some(
                    "PR #"@ + decimal(pr.fact.number as nat)
                        + " merge-queue state unreadable; refusing to arm blind: "@ + detail@,
                ),
            ),
        ),
        QueueFinding::Skip(reason) => Some(skipped(pr, None, Some(reason@), None)),
        QueueFinding::Arm => if !apply {
            Some(ArmView { outcome: "would_arm"@, ..skipped(pr, None, None, None) })
        } else if pr.node_id@.len() == 0 {
            Some(skipped(pr, Some("pull request node ID unavailable"@), None, None))
        } else {
            None
        },
    }
}

fn result(pr: &ObservedPr, outcome: &str, skip: Option<ArmSkip>, error: Option<String>) -> (r:
    NativeArmResult)
    ensures
        r.number == pr.fact.number,
        r.head_sha@ == pr.fact.head_sha@,
        r.outcome@ == outcome@,
        r.skip == skip,
        r.error == error,
{
    NativeArmResult {
        number: pr.fact.number,
        head_sha: pr.fact.head_sha.clone(),
        outcome: outcome.to_owned(),
        skip,
        error,
    }
}

/// What is done about a candidate once its place in the queue was read. One whose
/// place could not be read is never armed.
pub fn consider_candidate(pr: &ObservedPr, finding: QueueFinding, apply: bool) -> (r: ArmStep)
    ensures
        match considered(*pr, finding, apply) {
            None => r is Request,
            Some(view) => r matches ArmStep::Result(found) && found@ == view,
        },
{
    match finding {
        QueueFinding::Unreadable(detail) => {
            let error = concat4(
                "PR #",
                to_decimal(pr.fact.number).as_str(),
                " merge-queue state unreadable; refusing to arm blind: ",
                detail.as_str(),
            );
            ArmStep::Result(
                result(pr, "skipped", Some(ArmSkip::Unknown { detail }), Some(error)),
            )
        },
        QueueFinding::Skip(reason) => ArmStep::Result(
            result(pr, "skipped", Some(ArmSkip::State(reason)), None),
        ),
        QueueFinding::Arm => {
            if !apply {
                return ArmStep::Result(result(pr, "would_arm", None, None));
            }
            if pr.node_id.as_str().is_empty() {
                return ArmStep::Result(
                    result(
                        pr,
                        "skipped",
                        Some(
                            ArmSkip::Unknown {
                                detail: "pull request node ID unavailable".to_owned(),
                            },
                        ),
                        None,
                    ),
                );
            }
            ArmStep::Request
        },
    }
}

/// What came of the request to arm.
#[derive(Debug)]
pub enum ArmReply {
    /// The provider armed the pull request.
    Accepted,
    /// The provider did not, with its first error.
    NotArmed(Option<String>),
    /// The guard in front of the provider declined.
    Declined(String),
    Failed(String),
}

/// What is told of a request to arm.
pub open spec fn armed(pr: ObservedPr, reply: ArmReply) -> ArmView {
    let name = "PR #"@ + decimal(pr.fact.number as nat);
    match reply {
        ArmReply::Accepted => ArmView { outcome: "armed"@, ..skipped(pr, None, None, None) },
        ArmReply::NotArmed(error) => skipped(
            pr,
            None,
            None,
            Some(
                name + " arm request returned no armed pull request: "@ + (match error {
                    Some(text) => text@,
                    None => "no errors reported"@,
                }),
            ),
        ),
        ArmReply::Declined(detail) => skipped(
            pr,
            Some("queue-arm guard declined it: "@ + detail@),
            None,
            None,
        ),
        ArmReply::Failed(detail) => skipped(
            pr,
            None,
            None,
            Some(name + " could not be armed: "@ + detail@),
        ),
    }
}

/// What is told of a request to arm. A guard that declines agrees with the pass:
/// that is no failure.
pub fn arm(pr: &ObservedPr, reply: ArmReply) -> (r: NativeArmResult)
    ensures
        r@ == armed(*pr, reply),
{
    let number = to_decimal(pr.fact.number);
    match reply {
        ArmReply::Accepted => result(pr, "armed", None, None),
        ArmReply::NotArmed(error) => {
            let first = match error {
                Some(text) => text,
                None => "no errors reported".to_owned(),
            };
            let text = concat4(
                "PR #",
                number.as_str(),
                " arm request returned no armed pull request: ",
                first.as_str(),
            );
            result(pr, "skipped", None, Some(text))
        },
        ArmReply::Declined(detail) => {
            let detail = concat("queue-arm guard declined it: ", detail.as_str());
            result(pr, "skipped", Some(ArmSkip::Unknown { detail }), None)
        },
        ArmReply::Failed(detail) => {
            let text = concat4("PR #", number.as_str(), " could not be armed: ", detail.as_str());
            result(pr, "skipped", None, Some(text))
        },
    }
}

/// A pull request is armed only where its place in the queue was read and permits
/// it, by a pass that changes things.
pub proof fn nothing_is_armed_blindly(pr: ObservedPr, finding: QueueFinding, apply: bool)
    requires
        considered(pr, finding, apply) is None,
    ensures
        finding is Arm,
        apply,
        pr.node_id@.len() > 0,
{
}

/// Why a pass does nothing about a repository.
pub open spec fn backstop_refusal(
    repo: Seq<char>,
    base: Seq<char>,
    allow_auto_merge: bool,
    open: nat,
    candidates: nat,
) -> Option<Seq<char>> {
    if !allow_auto_merge {
        Some(
            "declined: "@ + repo
                + " does not allow native auto-merge, so nothing can be armed"@,
        )
    } else if candidates == 0 {
        Some(
            "no candidates: of "@ + decimal(open) + " open pull request(s) on "@ + base
                + ", none is a green, unarmed, unqueued pull request the steward declines to own"@,
        )
    } else {
        None
    }
}

/// Why a pass does nothing about a repository.
fn refusal_text(
    repo: &str,
    base: &str,
    allow_auto_merge: bool,
    open: usize,
    candidates: usize,
) -> (r: Option<String>)
    ensures
        opt_view(r) == backstop_refusal(
            repo@,
            base@,
            allow_auto_merge,
            open as nat,
            candidates as nat,
        ),
{
    if !allow_auto_merge {
        return Some(
            concat3(
                "declined: ",
                repo,
                " does not allow native auto-merge, so nothing can be armed",
            ),
        );
    }
    if candidates == 0 {
        return Some(
            concat5(
                "no candidates: of ",
                to_decimal(open as u64).as_str(),
                " open pull request(s) on ",
                base,
                ", none is a green, unarmed, unqueued pull request the steward declines to own",
            ),
        );
    }
    None
}

/// What became of a repository.
#[derive(Debug)]
pub struct NativeArmRepoStatus {
    pub policy: String,
    pub results: Vec<NativeArmResult>,
}

/// How a pass over candidates is described.
pub open spec fn backstop_policy(results: nat, apply: bool) -> Seq<char> {
    decimal(results) + " candidate(s) confirmed against their merge-queue state before "@ + (
    if apply {
        "arming"@
    } else {
        "reporting (audit mode; pass --apply to arm)"@
    })
}

/// Whether anything went wrong.
pub open spec fn any_arm_error(results: Seq<NativeArmResult>) -> bool {
    exists|i: int| 0 <= i < results.len() && (#[trigger] results[i]).error is Some
}

/// What became of the candidates of a repository, and whether anything went wrong.
fn finish_backstop(results: Vec<NativeArmResult>, apply: bool) -> (r: (NativeArmRepoStatus, bool))
    ensures
        r.0.policy@ == backstop_policy(results@.len(), apply),
        r.0.results == results,
        r.1 == any_arm_error(results@),
{
    let mut unhealthy = false;
    let mut i: usize = 0;
    while i < results.len()
        invariant
            i <= results.len(),
            unhealthy == exists|k: int| 0 <= k < i && (#[trigger] results@[k]).error is Some,
        decreases results.len() - i,
    {
        if results[i].error.is_some() {
            unhealthy = true;
        }
        i = i + 1;
    }
    let policy = concat3(
        to_decimal(results.len() as u64).as_str(),
        " candidate(s) confirmed against their merge-queue state before ",
        if apply {
            "arming"
        } else {
            "reporting (audit mode; pass --apply to arm)"
        },
    );
    (NativeArmRepoStatus { policy, results }, unhealthy)
}

/// Results, in texts.
pub open spec fn arm_views(results: Seq<NativeArmResult>) -> Seq<ArmView> {
    Seq::new(results.len(), |i: int| results[i]@)
}

/// Whether positions are those of the candidates, all of them and in their order.
pub open spec fn lists_candidates(
    list: Seq<usize>,
    prs: Seq<ObservedPr>,
    reports: Seq<PrReport>,
    ready: Seq<bool>,
) -> bool {
    &&& forall|k: int|
        0 <= k < list.len() ==> is_candidate(prs, reports, ready, #[trigger] list[k] as int)
    &&& forall|a: int, b: int| 0 <= a < b < list.len() ==> list[a] < list[b]
    &&& forall|i: int| #[trigger]
        is_candidate(prs, reports, ready, i) ==> list.contains(i as usize)
}

/// Where a pass over candidates stands: the results so far, and whether the
/// candidate after them is being armed.
pub struct ArmPassView {
    pub prs: Seq<ObservedPr>,
    pub reports: Seq<PrReport>,
    pub apply: bool,
    pub refusal: Option<Seq<char>>,
    pub candidates: Seq<usize>,
    pub results: Seq<ArmView>,
    pub arming: bool,
}

impl ArmPassView {
    /// Whether every candidate was looked at.
    pub open spec fn is_over(self) -> bool {
        self.results.len() == self.candidates.len()
    }

    /// The pull request that is looked at.
    pub open spec fn current(self) -> ObservedPr {
        self.prs[self.candidates[self.results.len() as int] as int]
    }

    /// The pass with the result of the pull request that is looked at.
    pub open spec fn told(self, result: ArmView) -> ArmPassView {
        ArmPassView { results: self.results.push(result), arming: false, ..self }
    }

    /// Whether the results are those of the first candidates, one for each, of pull
    /// requests that the steward declines, and nothing was armed by a pass that
    /// only looks.
    pub open spec fn sound(self) -> bool {
        &&& self.results.len() <= self.candidates.len()
        &&& self.arming ==> self.apply && !self.is_over()
        &&& self.refusal is Some ==> self.candidates.len() == 0
        &&& forall|k: int|
            0 <= k < self.candidates.len() ==> (#[trigger] self.candidates[k]) < self.prs.len()
                && declined(self.reports, self.prs[self.candidates[k] as int].fact.number)
        &&& forall|k: int|
            0 <= k < self.results.len() ==> (#[trigger] self.results[k]).number
                == self.prs[self.candidates[k] as int].fact.number && self.results[k].head_sha
                == self.prs[self.candidates[k] as int].fact.head_sha@
        &&& !self.apply ==> forall|k: int|
            0 <= k < self.results.len() ==> (#[trigger] self.results[k]).outcome == "would_arm"@
                || self.results[k].outcome == "skipped"@
    }
}

/// What came of an action of a pass over candidates.
#[derive(Debug)]
pub enum BackstopReply {
    /// What was found of a candidate's place in the queue.
    Found(QueueFinding),
    /// What came of the request to arm.
    Asked(ArmReply),
}

/// The pass after a reply. A reply that nothing asked for changes nothing.
pub open spec fn arm_pass_step(pass: ArmPassView, reply: BackstopReply) -> ArmPassView {
    match reply {
        BackstopReply::Found(finding) => if pass.is_over() || pass.arming {
            pass
        } else {
            match considered(pass.current(), finding, pass.apply) {
                Some(result) => pass.told(result),
                None => ArmPassView { arming: true, ..pass },
            }
        },
        BackstopReply::Asked(reply) => if pass.arming {
            pass.told(armed(pass.current(), reply))
        } else {
            pass
        },
    }
}

/// What a pass over candidates asks for.
#[derive(Clone, Copy, Debug, PartialEq, Eq, Structural)]
pub enum BackstopAction {
    /// Read the place in the queue of the pull request at this position.
    Read(usize),
    /// Arm the pull request at this position.
    Arm(usize),
    /// Nothing: the pass is over.
    Over,
}

/// What a pass over candidates asks for.
pub open spec fn arm_pass_action(pass: ArmPassView) -> BackstopAction {
    if pass.is_over() {
        BackstopAction::Over
    } else if pass.arming {
        BackstopAction::Arm(pass.candidates[pass.results.len() as int])
    } else {
        BackstopAction::Read(pass.candidates[pass.results.len() as int])
    }
}

/// A pass over the candidates of a repository.
#[derive(Debug)]
pub struct ArmPass<'a> {
    prs: &'a Vec<ObservedPr>,
    reports: &'a Vec<PrReport>,
    apply: bool,
    refusal: Option<String>,
    candidates: Vec<usize>,
    results: Vec<NativeArmResult>,
    arming: bool,
}

impl<'a> View for ArmPass<'a> {
    type V = ArmPassView;

    closed spec fn view(&self) -> ArmPassView {
        ArmPassView {
            prs: self.prs@,
            reports: self.reports@,
            apply: self.apply,
            refusal: opt_view(self.refusal),
            candidates: self.candidates@,
            results: arm_views(self.results@),
            arming: self.arming,
        }
    }
}

impl<'a> ArmPass<'a> {
    #[verifier::type_invariant]
    spec fn kept(self) -> bool {
        self@.sound()
    }

    /// A pass over a repository that begins; `ready` says of each pull request
    /// whether it is ready as far as is known. Where the repository does not permit
    /// arming or nothing is a candidate, the pass is over at once.
    pub fn new(
        observation: &'a RepoObservation,
        reports: &'a Vec<PrReport>,
        ready: &Vec<bool>,
        apply: bool,
    ) -> (r: Self)
        requires
            ready@.len() == observation.prs@.len(),
        ensures
            r@.sound(),
            r@.prs == observation.prs@,
            r@.reports == reports@,
            r@.apply == apply,
            r@.results.len() == 0,
            !r@.arming,
            r@.refusal == backstop_refusal(
                observation.repo@,
                observation.base@,
                observation.allow_auto_merge,
                observation.prs@.len(),
                r@.candidates.len(),
            ),
            observation.allow_auto_merge ==> lists_candidates(
                r@.candidates,
                observation.prs@,
                reports@,
                ready@,
            ),
            !observation.allow_auto_merge ==> r@.candidates.len() == 0,
    {
        let candidates = if observation.allow_auto_merge {
            select_candidates(&observation.prs, reports, ready)
        } else {
            Vec::new()
        };
        let refusal = refusal_text(
            observation.repo.as_str(),
            observation.base.as_str(),
            observation.allow_auto_merge,
            observation.prs.len(),
            candidates.len(),
        );
        ArmPass {
            prs: &observation.prs,
            reports,
            apply,
            refusal,
            candidates,
            results: Vec::new(),
            arming: false,
        }
    }

    /// What the pass asks for. A pass that only looks asks for nothing to be armed.
    pub fn action(&self) -> (r: BackstopAction)
        ensures
            r == arm_pass_action(self@),
            !self@.apply ==> !(r is Arm),
            r matches BackstopAction::Read(i) ==> i < self@.prs.len(),
            r matches BackstopAction::Arm(i) ==> i < self@.prs.len(),
    {
        proof {
            use_type_invariant(self);
        }
        if self.results.len() == self.candidates.len() {
            BackstopAction::Over
        } else if self.arming {
            BackstopAction::Arm(self.candidates[self.results.len()])
        } else {
            BackstopAction::Read(self.candidates[self.results.len()])
        }
    }
}

/// Takes a pass over candidates one reply further.
pub fn apply_native_arm_backstop<'a>(pass: ArmPass<'a>, reply: BackstopReply) -> (r: ArmPass<'a>)
    ensures
        r@ == arm_pass_step(pass@, reply),
        r@.sound(),
{
    proof {
        use_type_invariant(&pass);
    }
    let ArmPass { prs, reports, apply, refusal, candidates, mut results, mut arming } = pass;
    let ghost before = results@;
    if results.len() < candidates.len() {
        let pr = &prs[candidates[results.len()]];
        let told = match reply {
            BackstopReply::Found(finding) => if arming {
                None
            } else {
                match consider_candidate(pr, finding, apply) {
                    ArmStep::Result(result) => Some(result),
                    ArmStep::Request => {
                        arming = true;
                        None
                    },
                }
            },
            BackstopReply::Asked(reply) => if arming {
                Some(arm(pr, reply))
            } else {
                None
            },
        };
        match told {
            Some(result) => {
                proof {
                    assert(arm_views(before.push(result)) =~= arm_views(before).push(result@));
                }
                results.push(result);
                arming = false;
            },
            None => {},
        }
    }
    ArmPass { prs, reports, apply, refusal, candidates, results, arming }
}

/// What became of a repository after a pass that is over, and whether anything went
/// wrong; a pass that is not over goes on.
pub fn finish_native_arm<'a>(pass: ArmPass<'a>) -> (r: Result<
    (NativeArmRepoStatus, bool),
    ArmPass<'a>,
>)
    ensures
        match r {
            Ok((status, unhealthy)) => {
                &&& pass@.is_over()
                &&& status.policy@ == match pass@.refusal {
                    Some(text) => text,
                    None => backstop_policy(pass@.candidates.len(), pass@.apply),
                }
                &&& arm_views(status.results@) == pass@.results
                &&& status.results@.len() == pass@.candidates.len()
                &&& pass@.refusal is Some ==> status.results@.len() == 0
                &&& forall|k: int|
                    0 <= k < status.results@.len() ==> (#[trigger] status.results@[k]).number
                        == pass@.prs[pass@.candidates[k] as int].fact.number && declined(
                        pass@.reports,
                        status.results@[k].number,
                    )
                &&& !pass@.apply ==> forall|k: int|
                    0 <= k < status.results@.len() ==> (#[trigger] status.results@[k]).outcome@
                        == "would_arm"@ || status.results@[k].outcome@ == "skipped"@
                &&& unhealthy == any_arm_error(status.results@)
            },
            Err(rest) => !pass@.is_over() && rest == pass,
        },
{
    proof {
        use_type_invariant(&pass);
    }
    if pass.results.len() < pass.candidates.len() {
        return Err(pass);
    }
    let ghost told = pass@.results;
    let ArmPass { prs, reports, apply, refusal, candidates, results, arming } = pass;
    proof {
        assert forall|k: int| 0 <= k < results@.len() implies (#[trigger] results@[k])@
            == told[k] by {}
    }
    match refusal {
        Some(policy) => Ok((NativeArmRepoStatus { policy, results }, false)),
        None => Ok(finish_backstop(results, apply)),
    }
}

/// A guard in front of the provider that declines agrees with the pass: that is
/// told, and it is no failure.
pub proof fn a_guard_that_declines_is_no_failure(pass: ArmPassView, detail: String)
    requires
        pass.sound(),
        pass.arming,
    ensures
        ({
            let after = arm_pass_step(pass, BackstopReply::Asked(ArmReply::Declined(detail)));
            &&& after.results.len() == pass.results.len() + 1
            &&& after.results.last().outcome == "skipped"@
            &&& after.results.last().error is None
        }),
{
}

/// The arguments that read a pull request's place in the queue.
pub fn read_queue_state(repo: &str, pr: u64, query: &str) -> (r: Result<Vec<String>, String>)
    ensures
        match cut(repo@, '/') {
            None => r matches Err(e) && e@ == "repo `"@ + repo@ + "` is not OWNER/REPO"@,
            Some((owner, name)) => r matches Ok(args) && views(args@) == seq![
                "api"@,
                "graphql"@,
                "-f"@,
                "query="@ + query@,
                "-F"@,
                "owner="@ + owner,
                "-F"@,
                "name="@ + name,
                "-F"@,
                "number="@ + decimal(pr as nat),
            ],
        },
{
    match split_once(repo, '/') {
        None => Err(concat3("repo `", repo, "` is not OWNER/REPO")),
        Some((owner, name)) => {
            let mut out: Vec<String> = Vec::new();
            out.push("api".to_owned());
            out.push("graphql".to_owned());
            out.push("-f".to_owned());
            out.push(concat("query=", query));
            out.push("-F".to_owned());
            out.push(concat("owner=", owner.as_str()));
            out.push("-F".to_owned());
            out.push(concat("name=", name.as_str()));
            out.push("-F".to_owned());
            out.push(concat("number=", to_decimal(pr).as_str()));
            proof {
                assert(views(out@) =~= seq![
                    "api"@,
                    "graphql"@,
                    "-f"@,
                    "query="@ + query@,
                    "-F"@,
                    "owner="@ + owner@,
                    "-F"@,
                    "name="@ + name@,
                    "-F"@,
                    "number="@ + decimal(pr as nat),
                ]);
            }
            Ok(out)
        },
    }
}

/// A pull request counts as declined by what the first report on it decides.
pub proof fn the_first_report_declines(reports: Seq<PrReport>, number: u64, i: int)
    requires
        0 <= i < reports.len(),
        reports[i].number == number,
        forall|k: int| 0 <= k < i ==> (#[trigger] reports[k]).number != number,
    ensures
        declined(reports, number) <==> reports[i].decision is Unmanaged || reports[i].decision
            is HandoffMissing,
    decreases i,
{
    if i > 0 {
        assert(reports[0].number != number);
        let rest = reports.skip(1);
        assert(rest[i - 1] == reports[i]);
        assert forall|k: int| 0 <= k < i - 1 implies (#[trigger] rest[k]).number != number by {
            assert(rest[k] == reports[k + 1]);
        }
        the_first_report_declines(rest, number, i - 1);
    }
}

/// A pull request without a report is not declined.
pub proof fn only_reported_pull_requests_are_declined(reports: Seq<PrReport>, number: u64)
    requires
        forall|k: int| 0 <= k < reports.len() ==> (#[trigger] reports[k]).number != number,
    ensures
        !declined(reports, number),
    decreases reports.len(),
{
    if reports.len() > 0 {
        assert(reports[0].number != number);
        let rest = reports.skip(1);
        assert forall|k: int| 0 <= k < rest.len() implies (#[trigger] rest[k]).number != number by {
            assert(rest[k] == reports[k + 1]);
        }
        only_reported_pull_requests_are_declined(rest, number);
    }
}

proof fn arm_outcomes_differ()
    ensures
        "armed"@ != "skipped"@,
        "armed"@ != "would_arm"@,
        "skipped"@ != "would_arm"@,
{
    reveal_strlit("armed");
    reveal_strlit("skipped");
    reveal_strlit("would_arm");
    assert("armed"@[0] == 'a' && "skipped"@[0] == 's' && "would_arm"@[0] == 'w');
}

/// A candidate that the queue state lets be armed is armed by a pass that changes things
/// where it has a node id, and is told as one that would be by a pass that only looks;
/// one whose state cannot be read is told with an error that ends with the reason, and
/// one that is to be skipped is told without an error.
pub proof fn an_armable_candidate_is_armed(pr: ObservedPr, finding: QueueFinding, apply: bool)
    ensures
        considered(pr, finding, apply) is None <==> finding is Arm && apply && pr.node_id@.len() > 0,
        considered(pr, finding, apply) matches Some(told) ==> {
            &&& told.number == pr.fact.number && told.head_sha == pr.fact.head_sha@
            &&& told.outcome == "would_arm"@ <==> finding is Arm && !apply
            &&& told.outcome != "armed"@
            &&& told.error is Some <==> finding is Unreadable
        },
        finding matches QueueFinding::Unreadable(detail) ==> (considered(pr, finding, apply)
            matches Some(told) && (told.error matches Some(text) && has_suffix(text, detail@))),
        finding matches QueueFinding::Skip(reason) ==> (considered(pr, finding, apply) matches Some(
            told,
        ) && told.state == Some(reason@)),
{
    arm_outcomes_differ();
    if let QueueFinding::Unreadable(detail) = finding {
        ends_with_its_end(
            "PR #"@ + decimal(pr.fact.number as nat)
                + " merge-queue state unreadable; refusing to arm blind: "@,
            detail@,
        );
    }
}

/// A candidate is told as armed exactly when its request was accepted; a request that
/// failed or armed nothing is told with an error, and one that a guard declined without.
pub proof fn only_an_accepted_request_arms(pr: ObservedPr, reply: ArmReply)
    ensures
        armed(pr, reply).number == pr.fact.number,
        armed(pr, reply).head_sha == pr.fact.head_sha@,
        armed(pr, reply).outcome == "armed"@ <==> reply is Accepted,
        armed(pr, reply).error is Some <==> reply is NotArmed || reply is Failed,
        reply matches ArmReply::Failed(detail) ==> (armed(pr, reply).error matches Some(text)
            && has_suffix(text, detail@)),
        reply matches ArmReply::NotArmed(Some(detail)) ==> (armed(pr, reply).error matches Some(text)
            && has_suffix(text, detail@)),
        reply matches ArmReply::Declined(detail) ==> (armed(pr, reply).unknown matches Some(text)
            && has_suffix(text, detail@)),
{
    arm_outcomes_differ();
    let name = "PR #"@ + decimal(pr.fact.number as nat);
    match reply {
        ArmReply::Failed(detail) => {
            ends_with_its_end(name + " could not be armed: "@, detail@);
        },
        ArmReply::NotArmed(Some(detail)) => {
            ends_with_its_end(name + " arm request returned no armed pull request: "@, detail@);
        },
        ArmReply::Declined(detail) => {
            ends_with_its_end("queue-arm guard declined it: "@, detail@);
        },
        _ => {},
    }
}

/// A repository is left alone exactly where it does not allow auto-merge or has no
/// candidates.
pub proof fn candidates_are_considered_where_auto_merge_is_allowed(
    repo: Seq<char>,
    base: Seq<char>,
    allow_auto_merge: bool,
    open: nat,
    candidates: nat,
)
    ensures
        backstop_refusal(repo, base, allow_auto_merge, open, candidates) is None
            <==> allow_auto_merge && candidates > 0,
{
}

/// A pass tells of every candidate once and in their order: each answer to what the pass
/// asks for either tells of the candidate at hand or begins to arm it, never both, and an
/// answer to an arm request always tells of it.
pub proof fn every_candidate_is_told_of(pass: ArmPassView, reply: BackstopReply)
    requires
        pass.sound(),
    ensures
        ({
            let next = arm_pass_step(pass, reply);
            let asked = match arm_pass_action(pass) {
                BackstopAction::Read(_) => reply is Found,
                BackstopAction::Arm(_) => reply is Asked,
                BackstopAction::Over => false,
            };
            &&& next.candidates == pass.candidates && next.prs == pass.prs && next.apply == pass.apply
            &&& !asked ==> next == pass
            &&& asked ==> if next.arming {
                reply is Found && next.results == pass.results && pass.apply
            } else {
                next.results.len() == pass.results.len() + 1 && next.results.drop_last()
                    == pass.results && next.results.last().number == pass.current().fact.number
            }
            &&& asked && reply is Asked ==> !next.arming
            &&& arm_pass_action(pass) is Over <==> pass.results.len() == pass.candidates.len()
            &&& arm_pass_action(pass) is Arm <==> pass.arming
        }),
{
    arm_outcomes_differ();
    let next = arm_pass_step(pass, reply);
    if next.results.len() == pass.results.len() + 1 {
        assert(next.results.drop_last() =~= pass.results);
    }
}

} // verus!
