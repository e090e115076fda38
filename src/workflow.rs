//! The per-suggestion workflow: preview, apply, adversarial verification and
//! shipping. Each method takes one user action or one background result and
//! says which background operation to start next. A result that no longer
//! fits the state (the user moved on) is ignored.
use vstd::prelude::*;

verus! {

/// The stage of the workflow.
#[derive(Debug, Clone, Copy, PartialEq, Eq, Structural)]
pub enum Stage {
    Suggestions,
    Verify,
    Review,
    Ship,
}

/// The step of the ship sequence.
#[derive(Debug, Clone, Copy, PartialEq, Eq, Structural)]
pub enum ShipStep {
    Confirm,
    Committing,
    Pushing,
    CreatingPR,
    Done,
}

/// A finding of the verification pass about an applied fix.
#[derive(Debug, Clone)]
pub struct Finding {
    pub title: String,
    /// Whether it must be addressed before shipping.
    pub blocking: bool,
    /// Whether the user picked it for the next fix.
    pub selected: bool,
}

/// The background operation to start next.
#[derive(Debug, Clone, Copy, PartialEq, Eq, Structural)]
pub enum Action {
    /// Nothing to start.
    Idle,
    RequestPreview(u128),
    GenerateFix(u128),
    RunVerification(u128),
    RefixSelected(u128),
    Commit(u128),
    Push(u128),
    CreatePullRequest(u128),
}

/// The workflow of the suggestion being worked on.
#[derive(Debug, Clone)]
pub struct Workflow {
    pub stage: Stage,
    /// The suggestion worked on, outside the suggestions stage.
    pub suggestion: Option<u128>,
    /// The preview, once it has arrived.
    pub preview: Option<String>,
    /// Whether the fix is being generated and applied.
    pub applying: bool,
    pub findings: Vec<Finding>,
    /// Titles of findings already addressed by a re-fix.
    pub addressed: Vec<String>,
    /// How many re-fixes were made.
    pub iteration: u32,
    pub fixing: bool,
    pub verifying: bool,
    pub ship_step: ShipStep,
    /// The failure that halted shipping, if any.
    pub ship_error: Option<String>,
}

/// The workflow at rest in the suggestions stage, holding no data.
pub open spec fn at_rest(w: Workflow) -> bool {
    &&& w.stage == Stage::Suggestions
    &&& w.suggestion is None
    &&& w.preview is None
    &&& !w.applying
    &&& w.findings@.len() == 0
    &&& w.addressed@.len() == 0
    &&& w.iteration == 0
    &&& !w.fixing
    &&& !w.verifying
    &&& w.ship_step == ShipStep::Confirm
    &&& w.ship_error is None
}

/// The workflow just after suggestion `id` was picked: in the verify stage,
/// waiting for its preview, holding nothing else.
pub open spec fn verify_start(w: Workflow, id: u128) -> bool {
    &&& w.stage == Stage::Verify
    &&& w.suggestion == Some(id)
    &&& w.preview is None
    &&& !w.applying
    &&& w.findings@.len() == 0
    &&& w.addressed@.len() == 0
    &&& w.iteration == 0
    &&& !w.fixing
    &&& !w.verifying
    &&& w.ship_step == ShipStep::Confirm
    &&& w.ship_error is None
}

/// The workflow just after the fix for `id` was applied: in the review
/// stage, its first verification pass running, holding nothing else.
pub open spec fn review_start(w: Workflow, id: u128) -> bool {
    &&& w.stage == Stage::Review
    &&& w.suggestion == Some(id)
    &&& w.preview is None
    &&& !w.applying
    &&& w.findings@.len() == 0
    &&& w.addressed@.len() == 0
    &&& w.iteration == 0
    &&& !w.fixing
    &&& w.verifying
    &&& w.ship_step == ShipStep::Confirm
    &&& w.ship_error is None
}

/// Whether a result for suggestion `id` belongs to the current work.
pub open spec fn current(w: Workflow, id: u128) -> bool {
    w.suggestion == Some(id)
}

/// The findings whose titles were not addressed yet, in order.
pub open spec fn fresh_findings(fs: Seq<Finding>, addressed: Seq<Seq<char>>) -> Seq<Finding>
    decreases fs.len(),
{
    if fs.len() == 0 {
        seq![]
    } else if addressed.contains(fs.last().title@) {
        fresh_findings(fs.drop_last(), addressed)
    } else {
        fresh_findings(fs.drop_last(), addressed).push(fs.last())
    }
}

/// The titles of the selected findings, in order.
pub open spec fn selected_titles(fs: Seq<Finding>) -> Seq<Seq<char>>
    decreases fs.len(),
{
    if fs.len() == 0 {
        seq![]
    } else if fs.last().selected {
        selected_titles(fs.drop_last()).push(fs.last().title@)
    } else {
        selected_titles(fs.drop_last())
    }
}

pub open spec fn any_blocking(fs: Seq<Finding>) -> bool {
    exists|i: int| 0 <= i < fs.len() && (#[trigger] fs[i]).blocking
}

fn contains_title(v: &Vec<String>, t: &String) -> (r: bool)
    ensures
        r == v.deep_view().contains(t@),
{
    crate::suggest::contains_path(v, t)
}

impl Workflow {
    /// A workflow at rest.
    pub fn new() -> (r: Workflow)
        ensures
            at_rest(r),
    {
        Workflow {
            stage: Stage::Suggestions,
            suggestion: None,
            preview: None,
            applying: false,
            findings: Vec::new(),
            addressed: Vec::new(),
            iteration: 0,
            fixing: false,
            verifying: false,
            ship_step: ShipStep::Confirm,
            ship_error: None,
        }
    }

    fn reset(&mut self)
        ensures
            at_rest(*final(self)),
    {
        *self = Workflow::new();
    }

    /// The user picks suggestion `id`: ask for a quick preview and move to
    /// the verify stage. Only from the suggestions stage.
    pub fn select(&mut self, id: u128) -> (r: Action)
        ensures
            old(self).stage == Stage::Suggestions ==> r == Action::RequestPreview(id) && verify_start(
                *final(self),
                id,
            ),
            old(self).stage != Stage::Suggestions ==> r == Action::Idle && *final(self) == *old(self),
    {
        if self.stage != Stage::Suggestions {
            return Action::Idle;
        }
        self.reset();
        self.stage = Stage::Verify;
        self.suggestion = Some(id);
        Action::RequestPreview(id)
    }

    /// The preview for `id` arrived. Kept only while the verify stage still
    /// waits for it; `false` when it was stale and dropped.
    pub fn preview_ready(&mut self, id: u128, preview: String) -> (r: bool)
        ensures
            r == (old(self).stage == Stage::Verify && current(*old(self), id) && old(self).preview is None
                && !old(self).applying),
            r ==> *final(self) == (Workflow { preview: Some(preview), ..*old(self) }),
            !r ==> *final(self) == *old(self),
    {
        let fits = self.stage == Stage::Verify && self.suggestion == Some(id) && self.preview.is_none()
            && !self.applying;
        if fits {
            self.preview = Some(preview);
        }
        fits
    }

    /// The user confirms the preview: generate and apply the full fix.
    pub fn confirm(&mut self) -> (r: Action)
        ensures
            (old(self).stage == Stage::Verify && old(self).preview is Some && !old(self).applying
                && old(self).suggestion is Some) ==> r == Action::GenerateFix(old(self).suggestion->0)
                && *final(self) == (Workflow { applying: true, ..*old(self) }),
            !(old(self).stage == Stage::Verify && old(self).preview is Some && !old(self).applying
                && old(self).suggestion is Some) ==> r == Action::Idle && *final(self) == *old(self),
    {
        match self.suggestion {
            Some(id) => {
                if self.stage == Stage::Verify && self.preview.is_some() && !self.applying {
                    self.applying = true;
                    Action::GenerateFix(id)
                } else {
                    Action::Idle
                }
            },
            None => Action::Idle,
        }
    }

    /// The fix for `id` was applied (`ok`) or failed. On success the review
    /// stage starts with a verification pass; on failure the workflow goes
    /// back to the suggestions stage. A stale result changes nothing.
    pub fn fix_applied(&mut self, id: u128, ok: bool) -> (r: Action)
        ensures
            (old(self).stage == Stage::Verify && current(*old(self), id) && old(self).applying) ==> (
            if ok {
                r == Action::RunVerification(id) && review_start(*final(self), id)
            } else {
                r == Action::Idle && at_rest(*final(self))
            }),
            !(old(self).stage == Stage::Verify && current(*old(self), id) && old(self).applying) ==> r
                == Action::Idle && *final(self) == *old(self),
    {
        if !(self.stage == Stage::Verify && self.suggestion == Some(id) && self.applying) {
            return Action::Idle;
        }
        self.reset();
        if ok {
            self.stage = Stage::Review;
            self.suggestion = Some(id);
            self.verifying = true;
            Action::RunVerification(id)
        } else {
            Action::Idle
        }
    }

    /// The verification pass for `id` finished with `findings`. Findings
    /// whose titles were already addressed are not reported again.
    pub fn verification_done(&mut self, id: u128, findings: Vec<Finding>) -> (r: bool)
        ensures
            r == (old(self).stage == Stage::Review && current(*old(self), id) && old(self).verifying),
            r ==> final(self).findings@ == fresh_findings(findings@, old(self).addressed.deep_view())
                && !final(self).verifying && final(self).stage == Stage::Review
                && final(self).addressed == old(self).addressed
                && final(self).iteration == old(self).iteration
                && final(self).suggestion == old(self).suggestion,
            !r ==> *final(self) == *old(self),
    {
        if !(self.stage == Stage::Review && self.suggestion == Some(id) && self.verifying) {
            return false;
        }
        let mut kept: Vec<Finding> = Vec::new();
        let mut i: usize = 0;
        let ghost ad = self.addressed.deep_view();
        while i < findings.len()
            invariant
                i <= findings@.len(),
                ad == self.addressed.deep_view(),
                kept@ == fresh_findings(findings@.take(i as int), ad),
            decreases findings@.len() - i,
        {
            assert(findings@.take(i + 1).drop_last() =~= findings@.take(i as int));
            let f = &findings[i];
            if !contains_title(&self.addressed, &f.title) {
                let ghost kb = kept@;
                kept.push(Finding { title: f.title.clone(), blocking: f.blocking, selected: f.selected });
                assert(kept@ =~= kb.push(findings@[i as int]));
            }
            i = i + 1;
        }
        assert(findings@.take(findings@.len() as int) =~= findings@);
        self.findings = kept;
        self.verifying = false;
        true
    }

    /// The user toggles whether finding `i` is picked for the next fix.
    pub fn toggle_finding(&mut self, i: usize)
        ensures
            (old(self).stage == Stage::Review && i < old(self).findings@.len()) ==> *final(self) == (
            Workflow {
                findings: final(self).findings,
                ..*old(self)
            }) && final(self).findings@ == old(self).findings@.update(
                i as int,
                Finding { selected: !old(self).findings@[i as int].selected, ..old(self).findings@[i as int] },
            ),
            !(old(self).stage == Stage::Review && i < old(self).findings@.len()) ==> *final(self)
                == *old(self),
    {
        if self.stage == Stage::Review && i < self.findings.len() {
            let s = self.findings[i].selected;
            self.findings[i].selected = !s;
        }
    }

    /// The user asks for a fix of the selected findings: their titles count
    /// as addressed, the iteration counter goes up and the re-fix starts.
    /// Only in the review stage, with nothing running and something selected.
    pub fn refix(&mut self) -> (r: Action)
        ensures
            (old(self).stage == Stage::Review && !old(self).verifying && !old(self).fixing
                && selected_titles(old(self).findings@).len() > 0 && old(self).iteration < u32::MAX
                && old(self).suggestion is Some) ==> r == Action::RefixSelected(old(self).suggestion->0)
                && final(self).fixing && final(self).iteration == old(self).iteration + 1
                && final(self).addressed.deep_view() == old(self).addressed.deep_view() + selected_titles(
                old(self).findings@,
            ) && final(self).stage == Stage::Review && final(self).suggestion == old(self).suggestion
                && final(self).findings == old(self).findings,
            !(old(self).stage == Stage::Review && !old(self).verifying && !old(self).fixing
                && selected_titles(old(self).findings@).len() > 0 && old(self).iteration < u32::MAX
                && old(self).suggestion is Some) ==> r == Action::Idle && *final(self) == *old(self),
    {
        let id = match self.suggestion {
            Some(id) => id,
            None => return Action::Idle,
        };
        if !(self.stage == Stage::Review && !self.verifying && !self.fixing && self.iteration < u32::MAX) {
            return Action::Idle;
        }
        let mut titles: Vec<String> = Vec::new();
        let mut i: usize = 0;
        while i < self.findings.len()
            invariant
                i <= self.findings@.len(),
                titles.deep_view() == selected_titles(self.findings@.take(i as int)),
            decreases self.findings@.len() - i,
        {
            assert(self.findings@.take(i + 1).drop_last() =~= self.findings@.take(i as int));
            if self.findings[i].selected {
                let ghost tb = titles.deep_view();
                titles.push(self.findings[i].title.clone());
                assert(titles.deep_view() =~= tb.push(self.findings@[i as int].title@));
            }
            i = i + 1;
        }
        assert(self.findings@.take(self.findings@.len() as int) =~= self.findings@);
        if titles.len() == 0 {
            return Action::Idle;
        }
        let mut addressed: Vec<String> = Vec::new();
        core::mem::swap(&mut addressed, &mut self.addressed);
        let mut k: usize = 0;
        let ghost ab = addressed.deep_view();
        while k < titles.len()
            invariant
                k <= titles@.len(),
                addressed.deep_view() == ab + titles.deep_view().take(k as int),
            decreases titles@.len() - k,
        {
            let ghost before = addressed.deep_view();
            addressed.push(titles[k].clone());
            assert(addressed.deep_view() =~= before.push(titles.deep_view()[k as int]));
            assert(ab + titles.deep_view().take(k + 1) =~= (ab + titles.deep_view().take(k as int)).push(titles.deep_view()[k as int]));
            k = k + 1;
        }
        assert(titles.deep_view().take(titles@.len() as int) =~= titles.deep_view());
        self.addressed = addressed;
        self.iteration = self.iteration + 1;
        self.fixing = true;
        Action::RefixSelected(id)
    }

    /// The re-fix for `id` finished. On success verification runs again; on
    /// failure the review stays as it was.
    pub fn refix_done(&mut self, id: u128, ok: bool) -> (r: Action)
        ensures
            (old(self).stage == Stage::Review && current(*old(self), id) && old(self).fixing) ==> (if ok {
                r == Action::RunVerification(id) && final(self).verifying && !final(self).fixing
                    && final(self).findings@.len() == 0 && final(self).stage == Stage::Review
                    && final(self).addressed == old(self).addressed
                    && final(self).iteration == old(self).iteration
                    && final(self).suggestion == old(self).suggestion
            } else {
                r == Action::Idle && *final(self) == (Workflow { fixing: false, ..*old(self) })
            }),
            !(old(self).stage == Stage::Review && current(*old(self), id) && old(self).fixing) ==> r
                == Action::Idle && *final(self) == *old(self),
    {
        if !(self.stage == Stage::Review && self.suggestion == Some(id) && self.fixing) {
            return Action::Idle;
        }
        self.fixing = false;
        if ok {
            self.findings = Vec::new();
            self.verifying = true;
            Action::RunVerification(id)
        } else {
            Action::Idle
        }
    }

    /// The user accepts the fix: move to shipping, once verification is done
    /// and no blocking finding remains.
    pub fn accept(&mut self) -> (r: bool)
        ensures
            r == (old(self).stage == Stage::Review && !old(self).verifying && !old(self).fixing
                && !any_blocking(old(self).findings@)),
            r ==> *final(self) == (Workflow {
                stage: Stage::Ship,
                ship_step: ShipStep::Confirm,
                ship_error: None,
                ..*old(self)
            }),
            !r ==> *final(self) == *old(self),
    {
        if !(self.stage == Stage::Review && !self.verifying && !self.fixing) {
            return false;
        }
        let mut i: usize = 0;
        while i < self.findings.len()
            invariant
                i <= self.findings@.len(),
                forall|j: int| 0 <= j < i ==> !(#[trigger] self.findings@[j]).blocking,
            decreases self.findings@.len() - i,
        {
            if self.findings[i].blocking {
                return false;
            }
            i = i + 1;
        }
        self.stage = Stage::Ship;
        self.ship_step = ShipStep::Confirm;
        self.ship_error = None;
        true
    }

    /// The user confirms shipping: commit first.
    pub fn ship_confirm(&mut self) -> (r: Action)
        ensures
            (old(self).stage == Stage::Ship && old(self).ship_step == ShipStep::Confirm
                && old(self).suggestion is Some) ==> r == Action::Commit(old(self).suggestion->0)
                && *final(self) == (Workflow { ship_step: ShipStep::Committing, ..*old(self) }),
            !(old(self).stage == Stage::Ship && old(self).ship_step == ShipStep::Confirm
                && old(self).suggestion is Some) ==> r == Action::Idle && *final(self) == *old(self),
    {
        match self.suggestion {
            Some(id) => {
                if self.stage == Stage::Ship && self.ship_step == ShipStep::Confirm {
                    self.ship_step = ShipStep::Committing;
                    Action::Commit(id)
                } else {
                    Action::Idle
                }
            },
            None => Action::Idle,
        }
    }

    /// A ship step for `id` finished. Success moves to the next step in
    /// order (commit, push, pull request, done); failure halts where it is
    /// and keeps the error, without undoing the steps already done.
    pub fn ship_step_done(&mut self, id: u128, ok: bool, error: String) -> (r: Action)
        ensures
            ({
                let w = *old(self);
                let running = w.stage == Stage::Ship && current(w, id) && w.ship_error is None && (
                w.ship_step == ShipStep::Committing || w.ship_step == ShipStep::Pushing
                    || w.ship_step == ShipStep::CreatingPR);
                &&& !running ==> r == Action::Idle && *final(self) == w
                &&& (running && !ok) ==> r == Action::Idle && *final(self) == (Workflow {
                    ship_error: Some(error),
                    ..w
                })
                &&& (running && ok && w.ship_step == ShipStep::Committing) ==> r == Action::Push(id)
                    && *final(self) == (Workflow { ship_step: ShipStep::Pushing, ..w })
                &&& (running && ok && w.ship_step == ShipStep::Pushing) ==> r
                    == Action::CreatePullRequest(id) && *final(self) == (Workflow {
                    ship_step: ShipStep::CreatingPR,
                    ..w
                })
                &&& (running && ok && w.ship_step == ShipStep::CreatingPR) ==> r == Action::Idle
                    && *final(self) == (Workflow { ship_step: ShipStep::Done, ..w })
            }),
    {
        let running = self.stage == Stage::Ship && self.suggestion == Some(id) && self.ship_error.is_none()
            && (self.ship_step == ShipStep::Committing || self.ship_step == ShipStep::Pushing
            || self.ship_step == ShipStep::CreatingPR);
        if !running {
            return Action::Idle;
        }
        if !ok {
            self.ship_error = Some(error);
            return Action::Idle;
        }
        match self.ship_step {
            ShipStep::Committing => {
                self.ship_step = ShipStep::Pushing;
                Action::Push(id)
            },
            ShipStep::Pushing => {
                self.ship_step = ShipStep::CreatingPR;
                Action::CreatePullRequest(id)
            },
            _ => {
                self.ship_step = ShipStep::Done;
                Action::Idle
            },
        }
    }

    /// The user goes back: from the verify, review or ship stage to the
    /// suggestions stage, dropping that stage's data. No file is touched:
    /// an applied edit stays until it is undone explicitly.
    pub fn back(&mut self) -> (r: bool)
        ensures
            r == (old(self).stage != Stage::Suggestions),
            r ==> at_rest(*final(self)),
            !r ==> *final(self) == *old(self),
    {
        if self.stage == Stage::Suggestions {
            return false;
        }
        self.reset();
        true
    }
}

} // verus!
