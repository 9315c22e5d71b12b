//! Actions that fix findings, as they are offered to a client.
use crate::command::ToolError;
use crate::edits;
use crate::edits::TextEdit;
use crate::json::Json;
use crate::range::Range;
use crate::text;
use vstd::prelude::*;
use vstd::string::*;

verus! {

/// How long after a document was fixed as a whole it is not fixed again, in nanoseconds.
pub const COOLDOWN: u64 = 5_000_000_000;

/// The code of a finding as a client sends it.
#[derive(Debug)]
pub enum DiagnosticCode {
    Number(i32),
    Text(String),
}

/// A finding as a client sends it.
#[derive(Debug)]
pub struct CursorDiagnostic {
    pub range: Range,
    pub source: Option<String>,
    pub code: Option<DiagnosticCode>,
    pub data: Option<Json>,
}

/// The code of a finding as a client sends it.
pub enum CodeView {
    Number(i32),
    Text(Seq<char>),
}

/// A finding as a client sends it.
pub struct CursorView {
    pub range: Range,
    pub source: Option<Seq<char>>,
    pub code: Option<CodeView>,
    pub data: Option<crate::json::JsonView>,
}

impl View for CursorDiagnostic {
    type V = CursorView;

    open spec fn view(&self) -> CursorView {
        CursorView {
            range: self.range,
            source: text::optional_string(self.source),
            code: match self.code {
                Some(DiagnosticCode::Number(n)) => Some(CodeView::Number(n)),
                Some(DiagnosticCode::Text(s)) => Some(CodeView::Text(s@)),
                None => None,
            },
            data: match self.data {
                Some(j) => Some(j@),
                None => None,
            },
        }
    }
}

/// What a list of findings holds.
pub open spec fn cursor_view(v: Seq<CursorDiagnostic>) -> Seq<CursorView> {
    v.map_values(|d: CursorDiagnostic| d@)
}

/// Whether a kind of action is a fix of whole documents: that of any tool, or that of this server.
pub open spec fn fix_all_kind(kind: Seq<char>) -> bool {
    kind == "source.fixAll"@ || kind == "source.fixAll.phpcs"@
}

/// Whether there is a fix of whole documents among some kinds of actions.
pub open spec fn names_fix_all(kinds: Seq<Seq<char>>) -> bool {
    exists|i: int| 0 <= i < kinds.len() && fix_all_kind(#[trigger] kinds[i])
}

/// Whether a client asks for fixes of whole documents.
pub open spec fn asks_fix_all(kinds: Option<Seq<Seq<char>>>) -> bool {
    kinds is Some && names_fix_all(kinds->0)
}

/// What optional names hold.
pub open spec fn kinds_view(kinds: Option<Vec<String>>) -> Option<Seq<Seq<char>>> {
    match kinds {
        Some(v) => Some(text::texts(v@)),
        None => None,
    }
}

/// Whether a client asks for fixes of whole documents.
pub fn is_fix_all_request(kinds: &Option<Vec<String>>) -> (r: bool)
    ensures
        r == asks_fix_all(kinds_view(*kinds)),
{
    match kinds {
        Some(v) => {
            let ghost names = text::texts(v@);
            let mut i: usize = 0;
            while i < v.len()
                invariant
                    i <= v@.len(),
                    names == text::texts(v@),
                    names.len() == v@.len(),
                    kinds_view(*kinds) == Some(names),
                    forall|j: int| 0 <= j < i ==> !fix_all_kind(#[trigger] names[j]),
                decreases v@.len() - i,
            {
                assert(names[i as int] == v@[i as int]@);
                if text::same_text(&v[i], "source.fixAll") || text::same_text(
                    &v[i],
                    "source.fixAll.phpcs",
                ) {
                    return true;
                }
                i += 1;
            }
            false
        },
        None => false,
    }
}

/// Whether what was kept of a finding says that it can be fixed.
pub open spec fn fixable_data(data: Option<crate::json::JsonView>) -> bool {
    data matches Some(d) && d.get("fixable"@) matches Some(f) && f.truth() == Some(true)
}

/// Whether a finding is one of this server that can be fixed.
pub open spec fn fixable_here(d: CursorView) -> bool {
    d.source == Some("phpcs"@) && fixable_data(d.data)
}

fn is_fixable_here(d: &CursorDiagnostic) -> (r: bool)
    ensures
        r == fixable_here(d@),
{
    let ours: bool = match &d.source {
        Some(s) => text::same_text(s, "phpcs"),
        None => false,
    };
    let fixable: bool = match &d.data {
        Some(data) => match data.get("fixable") {
            Some(f) => match f.as_truth() {
                Some(b) => b,
                None => false,
            },
            None => false,
        },
        None => false,
    };
    ours && fixable
}

/// The sniff of a code: its first three parts. A number has none, nor has a code of fewer parts.
pub open spec fn sniff_of(code: Option<CodeView>) -> Option<Seq<char>> {
    match code {
        Some(CodeView::Text(s)) => {
            let parts = text::split_of(s, '.');
            if parts.len() >= 3 {
                Some(parts[0] + "."@ + parts[1] + "."@ + parts[2])
            } else {
                None
            }
        },
        _ => None,
    }
}

fn extract_sniff(code: &Option<DiagnosticCode>) -> (r: Option<String>)
    ensures
        text::optional_string(r) == sniff_of(
            match *code {
                Some(DiagnosticCode::Number(n)) => Some(CodeView::Number(n)),
                Some(DiagnosticCode::Text(s)) => Some(CodeView::Text(s@)),
                None => None,
            },
        ),
{
    match code {
        Some(DiagnosticCode::Text(s)) => {
            let parts: Vec<String> = text::split_text(s, '.');
            if parts.len() >= 3 {
                let first: String = parts[0].clone().concat(".");
                let second: String = first.concat(&parts[1]).concat(".");
                Some(second.concat(&parts[2]))
            } else {
                None
            }
        },
        _ => None,
    }
}

/// A run of the fixer.
#[derive(Debug)]
pub enum FixRun {
    /// For one finding: its place in the request, its sniff and its lines.
    Issue { index: usize, sniff: String, start_line: u32, end_line: u32 },
    /// For all that a sniff finds.
    Sniff(String),
    /// For all findings.
    All,
}

/// A run of the fixer.
#[verifier::ext_equal]
pub enum FixRunView {
    Issue { index: int, sniff: Seq<char>, start_line: u32, end_line: u32 },
    Sniff(Seq<char>),
    All,
}

impl View for FixRun {
    type V = FixRunView;

    open spec fn view(&self) -> FixRunView {
        match self {
            FixRun::Issue { index, sniff, start_line, end_line } => FixRunView::Issue {
                index: *index as int,
                sniff: sniff@,
                start_line: *start_line,
                end_line: *end_line,
            },
            FixRun::Sniff(sniff) => FixRunView::Sniff(sniff@),
            FixRun::All => FixRunView::All,
        }
    }
}

impl FixRun {
    /// The sniff to which the run is limited, if it is.
    pub fn sniff(&self) -> (r: Option<&str>)
        ensures
            text::optional(r) == match self@ {
                FixRunView::Issue { index, sniff, start_line, end_line } => Some(sniff),
                FixRunView::Sniff(sniff) => Some(sniff),
                FixRunView::All => None,
            },
    {
        match self {
            FixRun::Issue { index: _, sniff, start_line: _, end_line: _ } => Some(sniff.as_str()),
            FixRun::Sniff(sniff) => Some(sniff.as_str()),
            FixRun::All => None,
        }
    }
}

/// What a list of runs holds.
pub open spec fn runs_view(v: Seq<FixRun>) -> Seq<FixRunView> {
    v.map_values(|r: FixRun| r@)
}

/// The runs for single findings, of those that can be fixed and have a sniff.
pub open spec fn issue_runs(diagnostics: Seq<CursorView>) -> Seq<FixRunView>
    decreases diagnostics.len(),
{
    if diagnostics.len() == 0 {
        seq![]
    } else {
        let before = issue_runs(diagnostics.drop_last());
        let d = diagnostics.last();
        match sniff_of(d.code) {
            Some(sniff) => if fixable_here(d) {
                before.push(
                    FixRunView::Issue {
                        index: diagnostics.len() - 1,
                        sniff,
                        start_line: d.range.start.line,
                        end_line: d.range.end.line,
                    },
                )
            } else {
                before
            },
            None => before,
        }
    }
}

/// The sniffs of findings that can be fixed, each once, in the order in which they come.
pub open spec fn fixable_sniffs(diagnostics: Seq<CursorView>) -> Seq<Seq<char>>
    decreases diagnostics.len(),
{
    if diagnostics.len() == 0 {
        seq![]
    } else {
        let before = fixable_sniffs(diagnostics.drop_last());
        let d = diagnostics.last();
        match sniff_of(d.code) {
            Some(sniff) => if fixable_here(d) && !before.contains(sniff) {
                before.push(sniff)
            } else {
                before
            },
            None => before,
        }
    }
}

/// All runs for some findings: for each by itself, for each sniff, and for all.
pub open spec fn all_runs(diagnostics: Seq<CursorView>) -> Seq<FixRunView> {
    issue_runs(diagnostics) + fixable_sniffs(diagnostics).map_values(
        |s: Seq<char>| FixRunView::Sniff(s),
    ) + seq![FixRunView::All]
}

/// All runs for some findings.
pub fn plan_runs(diagnostics: &Vec<CursorDiagnostic>) -> (r: Vec<FixRun>)
    ensures
        runs_view(r@) == all_runs(cursor_view(diagnostics@)),
{
    let ghost all = cursor_view(diagnostics@);
    let mut runs: Vec<FixRun> = Vec::new();
    let mut sniffs: Vec<String> = Vec::new();
    let mut i: usize = 0;
    assert(runs_view(runs@) =~= issue_runs(all.take(0)));
    assert(text::texts(sniffs@) =~= fixable_sniffs(all.take(0)));
    while i < diagnostics.len()
        invariant
            i <= diagnostics@.len(),
            all == cursor_view(diagnostics@),
            runs_view(runs@) == issue_runs(all.take(i as int)),
            text::texts(sniffs@) == fixable_sniffs(all.take(i as int)),
        decreases diagnostics@.len() - i,
    {
        let d: &CursorDiagnostic = &diagnostics[i];
        let ghost runs_before = runs@;
        let ghost sniffs_before = sniffs@;
        assert(all.take(i + 1).drop_last() =~= all.take(i as int));
        assert(all.take(i + 1).last() == d@);
        let sniff: Option<String> = extract_sniff(&d.code);
        if is_fixable_here(d) {
            if let Some(sniff) = sniff {
                if !text::contains_string(&sniffs, &sniff) {
                    sniffs.push(sniff.clone());
                    assert(text::texts(sniffs@) =~= text::texts(sniffs_before).push(sniff@));
                }
                let run: FixRun = FixRun::Issue {
                    index: i,
                    sniff,
                    start_line: d.range.start.line,
                    end_line: d.range.end.line,
                };
                runs.push(run);
                assert(runs_view(runs@) =~= runs_view(runs_before).push(run@));
            }
        }
        i += 1;
    }
    assert(all.take(i as int) =~= all);
    let ghost sniff_runs = fixable_sniffs(all).map_values(|s: Seq<char>| FixRunView::Sniff(s));
    let mut k: usize = 0;
    assert(runs_view(runs@) =~= issue_runs(all) + sniff_runs.take(0));
    while k < sniffs.len()
        invariant
            k <= sniffs@.len(),
            text::texts(sniffs@) == fixable_sniffs(all),
            sniff_runs == fixable_sniffs(all).map_values(|s: Seq<char>| FixRunView::Sniff(s)),
            runs_view(runs@) == issue_runs(all) + sniff_runs.take(k as int),
        decreases sniffs@.len() - k,
    {
        let ghost before = runs@;
        let run: FixRun = FixRun::Sniff(sniffs[k].clone());
        assert(text::texts(sniffs@)[k as int] == sniffs@[k as int]@);
        assert(run@ == sniff_runs[k as int]);
        runs.push(run);
        assert(runs_view(runs@) =~= runs_view(before).push(run@));
        assert(sniff_runs.take(k + 1) =~= sniff_runs.take(k as int).push(run@));
        assert(runs_view(runs@) =~= issue_runs(all) + sniff_runs.take(k + 1));
        k += 1;
    }
    assert(sniff_runs.take(k as int) =~= sniff_runs);
    runs.push(FixRun::All);
    assert(runs_view(runs@) =~= all_runs(all));
    runs
}

/// What kind of action is offered.
#[derive(Debug, Clone, Copy, PartialEq, Eq, Structural)]
pub enum ActionKind {
    QuickFix,
    FixAll,
}

impl ActionKind {
    /// What the kind is called in the protocol.
    pub fn name(&self) -> (r: &'static str)
        ensures
            r@ == match *self {
                ActionKind::QuickFix => "quickfix"@,
                ActionKind::FixAll => "source.fixAll.phpcs"@,
            },
    {
        match self {
            ActionKind::QuickFix => "quickfix",
            ActionKind::FixAll => "source.fixAll.phpcs",
        }
    }
}

/// An action that a client may take on a document.
#[derive(Debug)]
pub struct CodeAction {
    pub title: String,
    pub kind: ActionKind,
    /// The place in the request of the finding that the action is for, if it is for one.
    pub diagnostic: Option<usize>,
    pub edits: Vec<TextEdit>,
    pub is_preferred: bool,
}

/// An action that a client may take on a document.
#[verifier::ext_equal]
pub struct ActionView {
    pub title: Seq<char>,
    pub kind: ActionKind,
    pub diagnostic: Option<int>,
    pub edits: Seq<edits::EditView>,
    pub is_preferred: bool,
}

impl View for CodeAction {
    type V = ActionView;

    open spec fn view(&self) -> ActionView {
        ActionView {
            title: self.title@,
            kind: self.kind,
            diagnostic: match self.diagnostic {
                Some(i) => Some(i as int),
                None => None,
            },
            edits: edits::edits_view(self.edits@),
            is_preferred: self.is_preferred,
        }
    }
}

/// What a list of actions holds.
pub open spec fn actions_view(v: Seq<CodeAction>) -> Seq<ActionView> {
    v.map_values(|a: CodeAction| a@)
}

/// What the fixer made of a document, if it has a result.
pub open spec fn fixed_text(result: Result<String, ToolError>) -> Option<Seq<char>> {
    match result {
        Ok(s) => Some(s@),
        Err(_) => None,
    }
}

/// The edits for the lines of a finding.
pub open spec fn issue_edits(
    content: Seq<char>,
    fixed: Seq<char>,
    start_line: u32,
    end_line: u32,
) -> Seq<edits::EditView> {
    let original = text::lines_of(content);
    let lines = text::lines_of(fixed);
    edits::line_edits(original, lines, start_line, end_line, edits::longer(original, lines))
}

/// The action that a run of the fixer on a document allows, if it changed what it is for. One for a
/// single finding changes the lines of the finding; the others give the document its fixed text.
pub open spec fn offered_action(
    content: Seq<char>,
    run: FixRunView,
    fixed: Option<Seq<char>>,
) -> Option<ActionView> {
    match fixed {
        None => None,
        Some(fixed) => match run {
            FixRunView::Issue { index, sniff, start_line, end_line } => {
                let changes = issue_edits(content, fixed, start_line, end_line);
                if changes.len() == 0 {
                    None
                } else {
                    Some(
                        ActionView {
                            title: "\u{1f3af} Fix this "@ + sniff + " issue"@,
                            kind: ActionKind::QuickFix,
                            diagnostic: Some(index),
                            edits: changes,
                            is_preferred: false,
                        },
                    )
                }
            },
            FixRunView::Sniff(sniff) => if fixed == content {
                None
            } else {
                Some(
                    ActionView {
                        title: "\u{1f6e0}\u{fe0f} Fix all "@ + text::split_of(sniff, '.').last()
                            + " issues"@,
                        kind: ActionKind::QuickFix,
                        diagnostic: None,
                        edits: seq![edits::whole_edit(content, fixed)],
                        is_preferred: false,
                    },
                )
            },
            FixRunView::All => if fixed == content {
                None
            } else {
                Some(
                    ActionView {
                        title: "\u{1f6e0}\u{fe0f} Fix all PHPCS issues (phpcbf)"@,
                        kind: ActionKind::QuickFix,
                        diagnostic: None,
                        edits: seq![edits::whole_edit(content, fixed)],
                        is_preferred: true,
                    },
                )
            },
        },
    }
}

fn whole_edits(content: &str, fixed: &str) -> (r: Vec<TextEdit>)
    ensures
        edits::edits_view(r@) == seq![edits::whole_edit(content@, fixed@)],
{
    let mut v: Vec<TextEdit> = Vec::new();
    v.push(edits::compute_whole_edit(content, fixed));
    assert(edits::edits_view(v@) =~= seq![edits::whole_edit(content@, fixed@)]);
    v
}

/// The action that a run of the fixer on a document allows.
pub fn offer_action(content: &str, run: &FixRun, result: &Result<String, ToolError>) -> (r: Option<
    CodeAction,
>)
    ensures
        match r {
            Some(a) => offered_action(content@, run@, fixed_text(*result)) == Some(a@),
            None => offered_action(content@, run@, fixed_text(*result)) is None,
        },
{
    let fixed: &str = match result {
        Ok(s) => s.as_str(),
        Err(_) => return None,
    };
    match run {
        FixRun::Issue { index, sniff, start_line, end_line } => {
            let changes: Vec<TextEdit> = edits::compute_line_edits(
                content,
                fixed,
                *start_line,
                *end_line,
            );
            assert(edits::edits_view(changes@).len() == changes@.len());
            if changes.len() == 0 {
                return None;
            }
            Some(
                CodeAction {
                    title: "\u{1f3af} Fix this ".to_string().concat(sniff).concat(" issue"),
                    kind: ActionKind::QuickFix,
                    diagnostic: Some(*index),
                    edits: changes,
                    is_preferred: false,
                },
            )
        },
        FixRun::Sniff(sniff) => {
            if text::same_text(fixed, content) {
                return None;
            }
            let parts: Vec<String> = text::split_text(sniff, '.');
            assert(text::texts(parts@).last() == parts@.last()@);
            let short: &str = &parts[parts.len() - 1];
            Some(
                CodeAction {
                    title: "\u{1f6e0}\u{fe0f} Fix all ".to_string().concat(short).concat(" issues"),
                    kind: ActionKind::QuickFix,
                    diagnostic: None,
                    edits: whole_edits(content, fixed),
                    is_preferred: false,
                },
            )
        },
        FixRun::All => {
            if text::same_text(fixed, content) {
                return None;
            }
            Some(
                CodeAction {
                    title: "\u{1f6e0}\u{fe0f} Fix all PHPCS issues (phpcbf)".to_string(),
                    kind: ActionKind::QuickFix,
                    diagnostic: None,
                    edits: whole_edits(content, fixed),
                    is_preferred: true,
                },
            )
        },
    }
}

/// What runs of the fixer gave.
pub open spec fn outcomes_view(v: Seq<(FixRun, Result<String, ToolError>)>) -> Seq<
    (FixRunView, Option<Seq<char>>),
> {
    v.map_values(|o: (FixRun, Result<String, ToolError>)| (o.0@, fixed_text(o.1)))
}

/// The actions that runs of the fixer on a document allow, in the order of the runs.
pub open spec fn offered_actions(
    content: Seq<char>,
    outcomes: Seq<(FixRunView, Option<Seq<char>>)>,
) -> Seq<ActionView>
    decreases outcomes.len(),
{
    if outcomes.len() == 0 {
        seq![]
    } else {
        let before = offered_actions(content, outcomes.drop_last());
        match offered_action(content, outcomes.last().0, outcomes.last().1) {
            Some(action) => before.push(action),
            None => before,
        }
    }
}

/// The actions that runs of the fixer on a document allow.
pub fn offer_actions(content: &str, outcomes: &Vec<(FixRun, Result<String, ToolError>)>) -> (r: Vec<
    CodeAction,
>)
    ensures
        actions_view(r@) == offered_actions(content@, outcomes_view(outcomes@)),
{
    let ghost all = outcomes_view(outcomes@);
    let mut actions: Vec<CodeAction> = Vec::new();
    let mut i: usize = 0;
    assert(actions_view(actions@) =~= offered_actions(content@, all.take(0)));
    while i < outcomes.len()
        invariant
            i <= outcomes@.len(),
            all == outcomes_view(outcomes@),
            actions_view(actions@) == offered_actions(content@, all.take(i as int)),
        decreases outcomes@.len() - i,
    {
        let ghost before = actions@;
        assert(all.take(i + 1).drop_last() =~= all.take(i as int));
        assert(all.take(i + 1).last() == all[i as int]);
        if let Some(a) = offer_action(content, &outcomes[i].0, &outcomes[i].1) {
            actions.push(a);
            assert(actions_view(actions@) =~= actions_view(before).push(a@));
        }
        i += 1;
    }
    assert(all.take(i as int) =~= all);
    actions
}

/// The actions for a request to fix a whole document: one that gives it its fixed text, if that is
/// another one.
pub open spec fn fix_all_actions(content: Seq<char>, fixed: Option<Seq<char>>) -> Seq<ActionView> {
    if fixed is Some && fixed->0 != content {
        seq![
            ActionView {
                title: "Fix all PHPCS issues"@,
                kind: ActionKind::FixAll,
                diagnostic: None,
                edits: seq![edits::whole_edit(content, fixed->0)],
                is_preferred: true,
            },
        ]
    } else {
        seq![]
    }
}

/// The actions for a request to fix a whole document.
pub fn offer_fix_all(content: &str, result: &Result<String, ToolError>) -> (r: Vec<CodeAction>)
    ensures
        actions_view(r@) == fix_all_actions(content@, fixed_text(*result)),
{
    let mut actions: Vec<CodeAction> = Vec::new();
    if let Ok(fixed) = result {
        if !text::same_text(fixed, content) {
            actions.push(
                CodeAction {
                    title: "Fix all PHPCS issues".to_string(),
                    kind: ActionKind::FixAll,
                    diagnostic: None,
                    edits: whole_edits(content, fixed),
                    is_preferred: true,
                },
            );
        }
    }
    assert(actions_view(actions@) =~= fix_all_actions(content@, fixed_text(*result)));
    actions
}

/// A fixer run without a result allows no action.
pub proof fn law_failed_run_offers_nothing(content: Seq<char>, run: FixRunView)
    ensures
        offered_action(content, run, None) is None,
        fix_all_actions(content, None).len() == 0,
{
}

/// A text that the fixer leaves as it is needs no action.
pub proof fn law_clean_text_needs_no_action(content: Seq<char>, run: FixRunView)
    ensures
        offered_action(content, run, Some(content)) is None,
        fix_all_actions(content, Some(content)).len() == 0,
{
    let lines = text::lines_of(content);
    if let FixRunView::Issue { index, sniff, start_line, end_line } = run {
        edits::law_no_change_no_edits(lines, start_line, end_line, edits::longer(lines, lines));
    }
}

/// Every action that is offered changes something.
pub proof fn law_every_action_edits(content: Seq<char>, run: FixRunView, fixed: Option<Seq<char>>)
    ensures
        offered_action(content, run, fixed) matches Some(action) ==> action.edits.len() > 0,
        fixed matches Some(f) ==> f != content ==> fix_all_actions(content, fixed).len() == 1
            && fix_all_actions(content, fixed)[0].edits == seq![edits::whole_edit(content, f)],
{
}

/// Whether a finding can be fixed and has the given sniff.
pub open spec fn fixable_by(d: CursorView, sniff: Seq<char>) -> bool {
    fixable_here(d) && sniff_of(d.code) == Some(sniff)
}

/// Each sniff of the findings that can be fixed gets one run, however many findings it has, and no
/// other sniff gets one.
pub proof fn law_one_run_per_sniff(diagnostics: Seq<CursorView>)
    ensures
        fixable_sniffs(diagnostics).no_duplicates(),
        forall|sniff: Seq<char>|
            fixable_sniffs(diagnostics).contains(sniff) <==> exists|i: int|
                0 <= i < diagnostics.len() && #[trigger] fixable_by(diagnostics[i], sniff),
    decreases diagnostics.len(),
{
    if diagnostics.len() > 0 {
        let front = diagnostics.drop_last();
        let before = fixable_sniffs(front);
        let all = fixable_sniffs(diagnostics);
        let last = diagnostics.len() - 1;
        law_one_run_per_sniff(front);
        assert forall|sniff: Seq<char>| all.contains(sniff) <==> exists|i: int|
            0 <= i < diagnostics.len() && #[trigger] fixable_by(diagnostics[i], sniff) by {
            if all.contains(sniff) {
                let k = choose|k: int| 0 <= k < all.len() && all[k] == sniff;
                if k < before.len() {
                    assert(before[k] == sniff);
                    assert(before.contains(sniff));
                    let i = choose|i: int|
                        0 <= i < front.len() && #[trigger] fixable_by(front[i], sniff);
                    assert(fixable_by(diagnostics[i], sniff));
                } else {
                    assert(fixable_by(diagnostics[last], sniff));
                }
            }
            if exists|i: int|
                0 <= i < diagnostics.len() && #[trigger] fixable_by(diagnostics[i], sniff) {
                let i = choose|i: int|
                    0 <= i < diagnostics.len() && #[trigger] fixable_by(diagnostics[i], sniff);
                if i < last {
                    assert(fixable_by(front[i], sniff));
                }
                if before.contains(sniff) {
                    let k = choose|k: int| 0 <= k < before.len() && before[k] == sniff;
                    assert(all[k] == sniff);
                } else {
                    assert(all[before.len() as int] == sniff);
                }
            }
        }
    }
}

/// A client asks for fixes of whole documents if and only if it names one of these two kinds,
/// wherever it stands among those that it names.
pub proof fn law_fix_all_is_asked_for_by_name(kinds: Seq<Seq<char>>)
    ensures
        asks_fix_all(Some(kinds)) <==> kinds.contains("source.fixAll"@) || kinds.contains(
            "source.fixAll.phpcs"@,
        ),
        !asks_fix_all(None),
{
    if kinds.contains("source.fixAll"@) {
        let i = choose|i: int| 0 <= i < kinds.len() && kinds[i] == "source.fixAll"@;
        assert(fix_all_kind(kinds[i]));
    }
    if kinds.contains("source.fixAll.phpcs"@) {
        let i = choose|i: int| 0 <= i < kinds.len() && kinds[i] == "source.fixAll.phpcs"@;
        assert(fix_all_kind(kinds[i]));
    }
    if names_fix_all(kinds) {
        let i = choose|i: int| 0 <= i < kinds.len() && fix_all_kind(#[trigger] kinds[i]);
        assert(kinds.contains(kinds[i]));
    }
}

/// A finding that a client sends can be fixed if and only if it comes from this server and its data
/// hold a member that says so.
pub proof fn law_fixable_findings_are_ours_and_marked(d: CursorView)
    ensures
        fixable_here(d) <==> d.source == Some("phpcs"@) && d.data is Some && d.data->0.get(
            "fixable"@,
        ) == Some(crate::json::JsonView::Bool(true)),
{
}

/// The sniff of a code is what stands before its third dot, or the whole code where that has two
/// dots. A code with fewer dots has none, and neither has a number.
pub proof fn law_sniff_is_the_first_three_parts(
    a: Seq<char>,
    b: Seq<char>,
    c: Seq<char>,
    rest: Seq<char>,
    n: i32,
)
    requires
        !a.contains('.'),
        !b.contains('.'),
        !c.contains('.'),
    ensures
        ({
            let sniff = a.push('.') + b.push('.') + c;
            &&& sniff_of(Some(CodeView::Text(sniff))) == Some(sniff)
            &&& sniff_of(Some(CodeView::Text(sniff.push('.') + rest))) == Some(sniff)
        }),
        sniff_of(Some(CodeView::Text(a))) is None,
        sniff_of(Some(CodeView::Text(a.push('.') + b))) is None,
        sniff_of(Some(CodeView::Number(n))) is None,
        sniff_of(None) is None,
{
    reveal_strlit(".");
    let sniff = a.push('.') + b.push('.') + c;
    assert(a + "."@ + b + "."@ + c =~= sniff);
    let one = seq![a];
    text::law_joined_parts_are_split_again(one, '.');
    assert(text::joined(one, '.') == a);
    let two = seq![a, b];
    assert(two.drop_first() =~= seq![b]);
    assert(text::joined(seq![b], '.') == b);
    text::law_joined_parts_are_split_again(two, '.');
    assert(text::joined(two, '.') == a.push('.') + b);
    let three = seq![a, b, c];
    assert(three.drop_first() =~= seq![b, c]);
    assert(seq![b, c].drop_first() =~= seq![c]);
    assert(text::joined(seq![c], '.') == c);
    assert(text::joined(seq![b, c], '.') == b.push('.') + c);
    text::law_joined_parts_are_split_again(three, '.');
    assert(text::joined(three, '.') =~= sniff);
    let more = text::split_of(rest, '.');
    text::law_split_parts_join_to_the_text(rest, '.');
    let all = seq![a, b, c] + more;
    assert forall|i: int| 0 <= i < all.len() implies !(#[trigger] all[i]).contains('.') by {
        if i >= 3 {
            assert(all[i] == more[i - 3]);
        }
    }
    text::law_joined_parts_are_split_again(all, '.');
    let tail = all.drop_first();
    assert(tail.drop_first().drop_first() =~= more);
    assert(tail.drop_first()[0] == c && tail[0] == b && all[0] == a);
    assert(text::joined(tail.drop_first(), '.') == c.push('.') + rest);
    assert(text::joined(tail, '.') == b.push('.') + (c.push('.') + rest));
    assert(text::joined(all, '.') =~= sniff.push('.') + rest);
}

/// The runs for single findings are for findings that can be fixed, each by its own sniff and on its
/// own lines, in the order of the findings.
pub proof fn law_issue_runs_are_for_fixable_findings(diagnostics: Seq<CursorView>, k: int)
    requires
        0 <= k < issue_runs(diagnostics).len(),
    ensures
        ({
            let runs = issue_runs(diagnostics);
            &&& runs[k] is Issue
            &&& 0 <= runs[k]->index < diagnostics.len()
            &&& fixable_here(diagnostics[runs[k]->index])
            &&& sniff_of(diagnostics[runs[k]->index].code) == Some(runs[k]->sniff)
            &&& runs[k]->start_line == diagnostics[runs[k]->index].range.start.line
            &&& runs[k]->end_line == diagnostics[runs[k]->index].range.end.line
            &&& k > 0 ==> runs[k - 1]->index < runs[k]->index
        }),
    decreases diagnostics.len(),
{
    let front = diagnostics.drop_last();
    let before = issue_runs(front);
    let runs = issue_runs(diagnostics);
    if k < before.len() {
        law_issue_runs_are_for_fixable_findings(front, k);
        assert(runs[k] == before[k]);
        assert(front[runs[k]->index] == diagnostics[runs[k]->index]);
        if k > 0 {
            assert(runs[k - 1] == before[k - 1]);
        }
    } else if k > 0 {
        law_issue_runs_are_for_fixable_findings(front, k - 1);
        assert(runs[k - 1] == before[k - 1]);
    }
}

/// Every finding that can be fixed and has a sniff gets a run of its own.
pub proof fn law_every_fixable_finding_has_a_run(
    diagnostics: Seq<CursorView>,
    i: int,
    sniff: Seq<char>,
)
    requires
        0 <= i < diagnostics.len(),
        fixable_here(diagnostics[i]),
        sniff_of(diagnostics[i].code) == Some(sniff),
    ensures
        issue_runs(diagnostics).contains(
            FixRunView::Issue {
                index: i,
                sniff,
                start_line: diagnostics[i].range.start.line,
                end_line: diagnostics[i].range.end.line,
            },
        ),
    decreases diagnostics.len(),
{
    let front = diagnostics.drop_last();
    let before = issue_runs(front);
    let runs = issue_runs(diagnostics);
    let run = FixRunView::Issue {
        index: i,
        sniff,
        start_line: diagnostics[i].range.start.line,
        end_line: diagnostics[i].range.end.line,
    };
    if i < diagnostics.len() - 1 {
        assert(front[i] == diagnostics[i]);
        law_every_fixable_finding_has_a_run(front, i, sniff);
        let k = choose|k: int| 0 <= k < before.len() && before[k] == run;
        assert(runs[k] == run);
    } else {
        assert(runs[before.len() as int] == run);
    }
}

/// Sniffs come in the order of their first findings: those of further findings stand behind them.
pub proof fn law_sniffs_in_order(diagnostics: Seq<CursorView>, d: CursorView)
    ensures
        ({
            let before = fixable_sniffs(diagnostics);
            let after = fixable_sniffs(diagnostics.push(d));
            &&& before.len() <= after.len() <= before.len() + 1
            &&& after.take(before.len() as int) == before
            &&& fixable_here(d) ==> (sniff_of(d.code) matches Some(s) ==> !before.contains(s) ==> after
                == before.push(s))
        }),
{
    assert(diagnostics.push(d).drop_last() =~= diagnostics);
    assert(diagnostics.push(d).last() == d);
    let before = fixable_sniffs(diagnostics);
    assert(fixable_sniffs(diagnostics.push(d)).take(before.len() as int) =~= before);
}

/// The runs are those for single findings, one for each sniff after them, and one for all in the end.
pub proof fn law_runs_in_order(diagnostics: Seq<CursorView>)
    ensures
        ({
            let runs = all_runs(diagnostics);
            let issues = issue_runs(diagnostics);
            let sniffs = fixable_sniffs(diagnostics);
            &&& runs.len() == issues.len() + sniffs.len() + 1
            &&& forall|k: int| 0 <= k < issues.len() ==> #[trigger] runs[k] == issues[k]
            &&& forall|k: int|
                0 <= k < sniffs.len() ==> runs[issues.len() + k] == FixRunView::Sniff(
                    #[trigger] sniffs[k],
                )
            &&& runs[runs.len() - 1] is All
        }),
{
}

/// A fix of all findings, or of all of a sniff, is offered if and only if the fixer changed the text.
/// It replaces the whole text by the fixed one.
pub proof fn law_whole_fixes_replace_the_text(
    content: Seq<char>,
    fixed: Seq<char>,
    set: Seq<char>,
    category: Seq<char>,
    name: Seq<char>,
)
    requires
        !set.contains('.'),
        !category.contains('.'),
        !name.contains('.'),
        text::lines_of(content).len() <= u32::MAX,
    ensures
        ({
            let sniff = set.push('.') + category.push('.') + name;
            let all = offered_action(content, FixRunView::All, Some(fixed));
            let some = offered_action(content, FixRunView::Sniff(sniff), Some(fixed));
            &&& all is Some <==> fixed != content
            &&& some is Some <==> fixed != content
            &&& all matches Some(a) ==> a.title == "\u{1f6e0}\u{fe0f} Fix all PHPCS issues (phpcbf)"@
                && a.kind is QuickFix && a.diagnostic is None && a.is_preferred && a.edits.len() == 1
                && a.edits[0].new_text == fixed && a.edits[0].range.start.line == 0
                && a.edits[0].range.start.character == 0 && a.edits[0].range.end.line
                == text::lines_of(content).len()
            &&& some matches Some(a) ==> a.title == "\u{1f6e0}\u{fe0f} Fix all "@ + name + " issues"@
                && a.kind is QuickFix && a.diagnostic is None && !a.is_preferred && a.edits.len() == 1
                && a.edits[0].new_text == fixed && a.edits[0].range.start.line == 0
                && a.edits[0].range.start.character == 0 && a.edits[0].range.end.line
                == text::lines_of(content).len()
        }),
{
    let three = seq![set, category, name];
    assert(three.drop_first() =~= seq![category, name]);
    assert(seq![category, name].drop_first() =~= seq![name]);
    assert(text::joined(seq![name], '.') == name);
    assert(text::joined(seq![category, name], '.') == category.push('.') + name);
    text::law_joined_parts_are_split_again(three, '.');
    assert(text::joined(three, '.') =~= set.push('.') + category.push('.') + name);
    assert(three.last() == name);
}

/// A fix of one finding is offered if and only if the fixer changed a line of the finding. It is for
/// that finding, names its sniff, and makes the edits of its lines.
pub proof fn law_single_fixes_change_the_lines(
    content: Seq<char>,
    fixed: Seq<char>,
    index: int,
    sniff: Seq<char>,
    start_line: u32,
    end_line: u32,
)
    ensures
        ({
            let run = FixRunView::Issue { index, sniff, start_line, end_line };
            let original = text::lines_of(content);
            let lines = text::lines_of(fixed);
            let changes = edits::line_edits(
                original,
                lines,
                start_line,
                end_line,
                if original.len() > lines.len() {
                    original.len()
                } else {
                    lines.len()
                },
            );
            let action = offered_action(content, run, Some(fixed));
            &&& action is Some <==> changes.len() > 0
            &&& action matches Some(a) ==> a.title == "\u{1f3af} Fix this "@ + sniff + " issue"@
                && a.kind is QuickFix && a.diagnostic == Some(index) && a.edits == changes
                && !a.is_preferred
        }),
{
}

/// The actions of two lists of runs, one after the other, are those of the first followed by those of
/// the second, and one run gives its own action or none.
pub proof fn law_actions_follow_the_runs(
    content: Seq<char>,
    a: Seq<(FixRunView, Option<Seq<char>>)>,
    b: Seq<(FixRunView, Option<Seq<char>>)>,
    run: FixRunView,
    fixed: Option<Seq<char>>,
)
    ensures
        offered_actions(content, a + b) == offered_actions(content, a) + offered_actions(content, b),
        match offered_action(content, run, fixed) {
            Some(action) => offered_actions(content, seq![(run, fixed)]) == seq![action],
            None => offered_actions(content, seq![(run, fixed)]).len() == 0,
        },
    decreases b.len(),
{
    if b.len() == 0 {
        assert(a + b =~= a);
        assert(offered_actions(content, a) + offered_actions(content, b) =~= offered_actions(
            content,
            a,
        ));
    } else {
        law_actions_follow_the_runs(content, a, b.drop_last(), run, fixed);
        assert((a + b).drop_last() =~= a + b.drop_last());
        assert((a + b).last() == b.last());
        assert(offered_actions(content, a + b) =~= offered_actions(content, a) + offered_actions(
            content,
            b,
        ));
    }
    let one = seq![(run, fixed)];
    assert(one.drop_last() =~= seq![]);
    assert(one.last() == (run, fixed));
    assert(offered_actions(content, one.drop_last()) =~= seq![]);
    if let Some(action) = offered_action(content, run, fixed) {
        assert(offered_actions(content, one) =~= seq![action]);
    }
}

/// A request to fix a whole document is answered with one action, which replaces the text by the fixed
/// one, if and only if the fixer has another text.
pub proof fn law_fix_all_is_one_action(content: Seq<char>, fixed: Seq<char>)
    requires
        fixed != content,
        text::lines_of(content).len() <= u32::MAX,
    ensures
        ({
            let actions = fix_all_actions(content, Some(fixed));
            &&& actions.len() == 1
            &&& actions[0].title == "Fix all PHPCS issues"@
            &&& actions[0].kind is FixAll
            &&& actions[0].diagnostic is None
            &&& actions[0].is_preferred
            &&& actions[0].edits.len() == 1
            &&& actions[0].edits[0].new_text == fixed
            &&& actions[0].edits[0].range.start.line == 0
            &&& actions[0].edits[0].range.start.character == 0
            &&& actions[0].edits[0].range.end.line == text::lines_of(content).len()
        }),
{
}

/// The kinds of actions have these names in the protocol, and the second one is asked for by its name.
pub proof fn law_kinds_by_name(kind: ActionKind, name: &'static str)
    requires
        call_ensures(ActionKind::name, (&kind,), name),
    ensures
        kind is QuickFix ==> name@ == "quickfix"@,
        kind is FixAll ==> name@ == "source.fixAll.phpcs"@,
        kind is FixAll ==> asks_fix_all(Some(seq![name@])),
{
    if kind is FixAll {
        assert(fix_all_kind(seq![name@][0]));
    }
}

} // verus!
