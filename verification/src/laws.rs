//! What holds of the server over several messages.
use crate::actions;
use crate::command;
use crate::command::ToolOutcome;
use crate::config;
use crate::document;
use crate::json;
use crate::server;
use crate::server::{ClientOptions, InitializationOptions, PhpcsSettings, ServerView};
use crate::text;
use crate::tools;
use crate::tools::PhpTool;
use vstd::prelude::*;

verus! {

/// A text that a client sends is the text that the server has of the document from then on.
pub proof fn law_text_is_read_back(
    before: ServerView,
    after: ServerView,
    uri: Seq<char>,
    content: Seq<char>,
)
    requires
        server::opened(before, after, uri, content) || server::changed(before, after, uri, content)
            || server::loaded(before, after, uri, content),
    ensures
        after.content(uri) == Some(content),
        after.docs[uri].checksum == document::checksum_of(content),
{
}

/// What happens to one document leaves all others as they are, and what was found in them.
pub proof fn law_other_documents_stay(
    before: ServerView,
    after: ServerView,
    uri: Seq<char>,
    content: Seq<char>,
    other: Seq<char>,
)
    requires
        other != uri,
        ({
            ||| server::opened(before, after, uri, content)
            ||| server::changed(before, after, uri, content)
            ||| server::loaded(before, after, uri, content)
            ||| after == server::closed_doc(before, uri)
        }),
    ensures
        after.content(other) == before.content(other),
        after.docs.contains_key(other) == before.docs.contains_key(other),
        after.results.contains_key(other) == before.results.contains_key(other),
        after.results.contains_key(other) ==> after.results[other] == before.results[other],
        after.standard == before.standard,
        after.user_phpcs_path == before.user_phpcs_path,
        after.user_phpcbf_path == before.user_phpcbf_path,
{
}

/// What was found in a text is forgotten with the text: once a document is opened, changed or
/// closed, its findings have to be looked for anew.
pub proof fn law_no_stale_findings(
    before: ServerView,
    after: ServerView,
    uri: Seq<char>,
    content: Seq<char>,
    previous: Option<Seq<char>>,
)
    requires
        ({
            ||| server::opened(before, after, uri, content)
            ||| server::changed(before, after, uri, content)
            ||| after == server::closed_doc(before, uri)
        }),
    ensures
        !after.results.contains_key(uri),
        !(server::diagnostic_step(after, uri, true, previous) is Reply),
{
}

/// A document that is closed is forgotten.
pub proof fn law_closed_is_forgotten(state: ServerView, uri: Seq<char>)
    ensures
        server::closed_doc(state, uri).content(uri) is None,
        !server::closed_doc(state, uri).results.contains_key(uri),
{
}

/// To close a document undoes its opening, but for findings that the opening made the server
/// forget.
pub proof fn law_close_undoes_open(
    before: ServerView,
    between: ServerView,
    uri: Seq<char>,
    content: Seq<char>,
)
    requires
        before.valid(),
        between.valid(),
        !before.docs.contains_key(uri),
        server::opened(before, between, uri, content),
    ensures
        server::closed_doc(between, uri) == (ServerView {
            results: before.results.remove(uri),
            ..before
        }),
{
    let after = server::closed_doc(between, uri);
    assert(between.docs.contains_key(uri));
    assert(after.docs =~= before.docs);
    assert(after.results =~= before.results.remove(uri));
}

/// The size of documents.
pub open spec fn total_size(docs: Map<Seq<char>, document::DocumentView>) -> nat
    decreases docs.dom().len(),
    when docs.dom().finite()
{
    if docs.dom().len() == 0 {
        0
    } else {
        let uri = docs.dom().choose();
        docs[uri].data.len() + total_size(docs.remove(uri))
    }
}

/// Whether the server keeps track of the size of the open documents, in the numbers of the
/// machine.
pub open spec fn tracked_memory(state: ServerView) -> bool {
    state.memory == total_size(state.docs) % (usize::MAX + 1) as nat
}

proof fn lemma_total_without(docs: Map<Seq<char>, document::DocumentView>, uri: Seq<char>)
    requires
        docs.dom().finite(),
        docs.contains_key(uri),
    ensures
        total_size(docs) == docs[uri].data.len() + total_size(docs.remove(uri)),
    decreases docs.dom().len(),
{
    let first = docs.dom().choose();
    assert(docs.dom().contains(uri));
    assert(docs.dom().len() > 0);
    assert(docs.dom().contains(first));
    assert(docs.remove(first).dom() =~= docs.dom().remove(first));
    assert(docs.remove(uri).dom() =~= docs.dom().remove(uri));
    if first != uri {
        lemma_total_without(docs.remove(first), uri);
        lemma_total_without(docs.remove(uri), first);
        assert(docs.remove(first).remove(uri) =~= docs.remove(uri).remove(first));
    }
}

proof fn lemma_total_with(
    docs: Map<Seq<char>, document::DocumentView>,
    uri: Seq<char>,
    doc: document::DocumentView,
)
    requires
        docs.dom().finite(),
    ensures
        total_size(docs.insert(uri, doc)) == total_size(docs.remove(uri)) + doc.data.len(),
{
    assert(docs.insert(uri, doc).dom() =~= docs.dom().insert(uri));
    lemma_total_without(docs.insert(uri, doc), uri);
    assert(docs.insert(uri, doc).remove(uri) =~= docs.remove(uri));
}

proof fn lemma_wrap_more(total: nat, memory: usize, n: usize)
    requires
        memory == total % (usize::MAX + 1) as nat,
    ensures
        memory.wrapping_add(n) == (total + n) as nat % (usize::MAX + 1) as nat,
{
    let m = usize::MAX + 1;
    let q = total as int / m;
    vstd::arithmetic::div_mod::lemma_fundamental_div_mod(total as int, m);
    assert(m * q == q * m) by (nonlinear_arith);
    if memory + n < m {
        vstd::arithmetic::div_mod::lemma_fundamental_div_mod_converse(total + n, m, q, memory + n);
    } else {
        assert((q + 1) * m == q * m + m) by (nonlinear_arith);
        vstd::arithmetic::div_mod::lemma_fundamental_div_mod_converse(
            total + n,
            m,
            q + 1,
            memory + n - m,
        );
    }
}

proof fn lemma_wrap_less(total: nat, memory: usize, n: usize)
    requires
        memory == total % (usize::MAX + 1) as nat,
        n <= total,
    ensures
        memory.wrapping_sub(n) == (total - n) as nat % (usize::MAX + 1) as nat,
{
    let m = usize::MAX + 1;
    let q = total as int / m;
    vstd::arithmetic::div_mod::lemma_fundamental_div_mod(total as int, m);
    assert(m * q == q * m) by (nonlinear_arith);
    if memory >= n {
        vstd::arithmetic::div_mod::lemma_fundamental_div_mod_converse(total - n, m, q, memory - n);
    } else {
        assert((q - 1) * m == q * m - m) by (nonlinear_arith);
        vstd::arithmetic::div_mod::lemma_fundamental_div_mod_converse(
            total - n,
            m,
            q - 1,
            memory - n + m,
        );
    }
}

/// A server without documents keeps track of their size: one that starts, and one that was shut
/// down.
pub proof fn law_memory_starts_tracked(state: ServerView)
    requires
        state.docs == Map::<Seq<char>, document::DocumentView>::empty(),
        state.memory == 0,
    ensures
        state.valid(),
        tracked_memory(state),
{
    assert(state.docs.dom() =~= Set::empty());
    vstd::arithmetic::div_mod::lemma_small_mod(0, (usize::MAX + 1) as nat);
}

/// The server keeps track of the size of the open documents when one is opened or loaded that was
/// not open.
pub proof fn law_memory_tracked_when_opened(
    before: ServerView,
    after: ServerView,
    uri: Seq<char>,
    content: Seq<char>,
)
    requires
        before.valid(),
        after.valid(),
        tracked_memory(before),
        !before.docs.contains_key(uri),
        server::opened(before, after, uri, content) || server::loaded(before, after, uri, content),
    ensures
        tracked_memory(after),
{
    let doc = after.docs[uri];
    assert(after.docs.contains_key(uri));
    lemma_total_with(before.docs, uri, doc);
    assert(before.docs.remove(uri) =~= before.docs);
    lemma_wrap_more(total_size(before.docs), before.memory, doc.data.len() as usize);
}

/// The server keeps track of the size of the open documents when one is changed.
pub proof fn law_memory_tracked_when_changed(
    before: ServerView,
    after: ServerView,
    uri: Seq<char>,
    content: Seq<char>,
)
    requires
        before.valid(),
        after.valid(),
        tracked_memory(before),
        server::changed(before, after, uri, content),
    ensures
        tracked_memory(after),
{
    let doc = after.docs[uri];
    assert(after.docs.contains_key(uri));
    lemma_total_with(before.docs, uri, doc);
    if before.docs.contains_key(uri) {
        lemma_total_without(before.docs, uri);
    } else {
        assert(before.docs.remove(uri) =~= before.docs);
    }
    lemma_wrap_less(total_size(before.docs), before.memory, before.size(uri));
    lemma_wrap_more(
        total_size(before.docs.remove(uri)),
        before.memory.wrapping_sub(before.size(uri)),
        doc.data.len() as usize,
    );
}

/// The server keeps track of the size of the open documents when one is closed.
pub proof fn law_memory_tracked_when_closed(state: ServerView, uri: Seq<char>)
    requires
        state.valid(),
        tracked_memory(state),
    ensures
        tracked_memory(server::closed_doc(state, uri)),
{
    if state.docs.contains_key(uri) {
        lemma_total_without(state.docs, uri);
    } else {
        assert(state.docs.remove(uri) =~= state.docs);
    }
    lemma_wrap_less(total_size(state.docs), state.memory, state.size(uri));
}

/// Whether what is kept of findings belongs to the text that each document has now.
pub open spec fn coherent(state: ServerView) -> bool {
    forall|uri: Seq<char>| #[trigger]
        state.results.contains_key(uri) && state.docs.contains_key(uri)
            ==> state.results[uri].result_id == state.docs[uri].checksum
}

/// What is kept of findings belongs to the text that each document has: it does where none are
/// kept, as when the server starts or its settings change, and opening, changing and closing
/// documents keep it so. So does the end of a lint run, where the document did not change since the
/// run was asked for.
pub proof fn law_findings_belong_to_the_text(
    before: ServerView,
    after: ServerView,
    uri: Seq<char>,
    content: Seq<char>,
    outcome: ToolOutcome,
)
    requires
        coherent(before),
        ({
            ||| after.results == Map::<Seq<char>, server::ResultsView>::empty()
            ||| server::opened(before, after, uri, content)
            ||| server::changed(before, after, uri, content)
            ||| server::loaded(before, after, uri, content) && !before.results.contains_key(uri)
            ||| after == server::closed_doc(before, uri)
            ||| after == server::linted(before, uri, before.docs[uri].checksum, outcome)
        }),
    ensures
        coherent(after),
{
    assert forall|u: Seq<char>| #[trigger]
        after.results.contains_key(u) && after.docs.contains_key(
            u,
        ) implies after.results[u].result_id == after.docs[u].checksum by {
        if u != uri {
            assert(before.results.contains_key(u) && before.docs.contains_key(u));
        } else if after == server::linted(before, uri, before.docs[uri].checksum, outcome) {
            assert(before.docs.contains_key(u));
            if server::run_findings(before, uri, outcome) is Err {
                assert(before.results.contains_key(u) && before.docs.contains_key(u));
            }
        }
    }
}

/// A client is told that nothing changed only where the findings it has are those for the text that
/// the document has now.
pub proof fn law_unchanged_means_same_text(
    state: ServerView,
    uri: Seq<char>,
    previous: Option<Seq<char>>,
)
    requires
        state.valid(),
        coherent(state),
        state.docs.contains_key(uri),
        server::diagnostic_step(state, uri, true, previous) is Reply,
        server::diagnostic_step(state, uri, true, previous)->Reply_0 is Unchanged,
    ensures
        previous == Some(document::checksum_of(state.content(uri)->0)),
{
    assert(state.results.contains_key(uri) && state.docs.contains_key(uri));
}

/// A document whose text did not change is not linted again: a client that names the findings of
/// the last run is told that they are the same, and any other client is told them.
pub proof fn law_linted_once(
    state: ServerView,
    uri: Seq<char>,
    result_id: Seq<char>,
    outcome: ToolOutcome,
    previous: Option<Seq<char>>,
)
    requires
        server::run_findings(state, uri, outcome) is Ok,
    ensures
        ({
            let after = server::linted(state, uri, result_id, outcome);
            server::diagnostic_step(after, uri, true, previous)
                == server::DiagnosticStepView::Reply(
                if previous == Some(result_id) {
                    server::ReportView::Unchanged(result_id)
                } else {
                    server::linted_report(state, uri, result_id, outcome)
                },
            )
        }),
{
}

/// A lint run without a result is not remembered: the client is told nothing, and the document is
/// linted again when it asks again.
pub proof fn law_failed_run_is_not_kept(
    state: ServerView,
    uri: Seq<char>,
    result_id: Seq<char>,
    outcome: ToolOutcome,
)
    requires
        !(outcome is Finished),
    ensures
        server::linted(state, uri, result_id, outcome) == state,
        server::linted_report(state, uri, result_id, outcome) == server::empty_report(),
{
}

/// A tool that was found is not searched for again.
pub proof fn law_tool_is_searched_once(state: ServerView, tool: PhpTool, path: Seq<char>)
    ensures
        server::search(state.with_tool_path(tool, path), tool) == tools::DetectView::Found(path),
{
}

/// A path for a tool that the settings change takes effect at once, unless it is blank.
pub proof fn law_new_path_takes_effect(
    state: ServerView,
    settings: json::JsonView,
    nested: Option<PhpcsSettings>,
    tool: PhpTool,
)
    requires
        ({
            let after = server::configured(state, settings, nested);
            &&& after.user_path(tool) != state.user_path(tool)
            &&& !text::blank(after.user_path(tool)->0)
        }),
    ensures
        ({
            let after = server::configured(state, settings, nested);
            server::search(after, tool) == tools::DetectView::Found(after.user_path(tool)->0)
        }),
{
}

/// Settings that change make the server look for findings anew, and touch no document. A setting
/// that stands by itself counts more than one in the section for the server, and what is not set
/// stays as it is.
pub proof fn law_settings_apply(
    state: ServerView,
    settings: json::JsonView,
    nested: Option<PhpcsSettings>,
)
    ensures
        ({
            let after = server::configured(state, settings, nested);
            &&& after.results == Map::<Seq<char>, server::ResultsView>::empty()
            &&& after.docs == state.docs
            &&& after.memory == state.memory
            &&& settings.text_member("standard"@) matches Some(s) ==> after.standard == Some(s)
            &&& settings.text_member("standard"@) is None ==> (nested matches Some(n)
                ==> after.standard == server::updated(
                state.standard,
                text::optional_string(n.standard),
            ))
            &&& settings.text_member("standard"@) is None && nested is None ==> after.standard
                == state.standard
        }),
{
}

/// What a client asks for when it starts the server counts more than configuration files, which
/// count only where it says nothing at all.
pub proof fn law_client_options_come_first(
    state: ServerView,
    root: Option<Seq<char>>,
    options: ClientOptions,
    config_paths: Seq<Option<Seq<char>>>,
    other_paths: Seq<Option<Seq<char>>>,
)
    requires
        !(options is Absent),
    ensures
        server::initialized(state, root, options, config_paths) == server::initialized(
            state,
            root,
            options,
            other_paths,
        ),
        options matches ClientOptions::Given(o) ==> (o.standard matches Some(s)
            ==> server::initialized(state, root, options, config_paths).standard == Some(s@)),
{
}

/// The server works in the folder that the client names when it starts it, whatever else the client
/// says.
pub proof fn law_client_names_the_root(
    state: ServerView,
    root: Option<Seq<char>>,
    options: ClientOptions,
    config_paths: Seq<Option<Seq<char>>>,
)
    ensures
        server::initialized(state, root, options, config_paths).workspace_root == root,
{
}

/// A coding standard that the user has set outlasts every project: it is in force again as soon as
/// the server is in a project without a configuration file.
pub proof fn law_user_standard_outlasts_projects(
    state: ServerView,
    root: Option<Seq<char>>,
    options: InitializationOptions,
    config_paths: Seq<Option<Seq<char>>>,
    project: Seq<Option<Seq<char>>>,
    bare: Seq<Option<Seq<char>>>,
)
    requires
        options.standard is Some,
        !config::project_config(root, options.standard->0@),
        config::first_found(bare) is None,
    ensures
        ({
            let started = server::initialized(
                state,
                root,
                ClientOptions::Given(options),
                config_paths,
            );
            server::switched(server::switched(started, project), bare).standard == Some(
                options.standard->0@,
            )
        }),
{
}

/// A document that was fixed as a whole is not fixed again within the next five seconds, and is
/// afterwards. Other documents are not held back.
pub proof fn law_fix_all_cools_down(
    state: ServerView,
    uri: Seq<char>,
    content: Seq<char>,
    fixed: Seq<char>,
    sent: u64,
    kinds: Option<Seq<Seq<char>>>,
    found: Seq<actions::CursorView>,
    now: u64,
    other: Seq<char>,
)
    requires
        fixed != content,
        actions::asks_fix_all(kinds),
        state.docs.contains_key(uri),
        other != uri,
    ensures
        ({
            let after = server::fixed_all(state, uri, content, Some(fixed), sent);
            &&& server::action_step(after, uri, kinds, found, now) == if now < sent + 5_000_000_000 {
                server::ActionStepView::Done
            } else {
                server::ActionStepView::FixAll { content: state.content(uri)->0 }
            }
            &&& server::action_step(after, other, kinds, found, now) == server::action_step(
                state,
                other,
                kinds,
                found,
                now,
            )
        }),
{
}

/// A fix that changes nothing holds back no later one.
pub proof fn law_fix_without_change_is_not_counted(
    state: ServerView,
    uri: Seq<char>,
    content: Seq<char>,
    now: u64,
)
    ensures
        server::fixed_all(state, uri, content, Some(content), now) == state,
        server::fixed_all(state, uri, content, None, now) == state,
{
}

/// Fixes of single findings are offered only for findings of the text that the document has: as
/// soon as it is changed there are none, until it is linted again.
pub proof fn law_no_offer_before_lint(
    before: ServerView,
    after: ServerView,
    uri: Seq<char>,
    content: Seq<char>,
    kinds: Option<Seq<Seq<char>>>,
    found: Seq<actions::CursorView>,
    now: u64,
)
    requires
        server::opened(before, after, uri, content) || server::changed(before, after, uri, content),
        !actions::asks_fix_all(kinds),
    ensures
        server::action_step(after, uri, kinds, found, now) is Done,
{
}

/// A configuration file that is deleted does no harm: the next run leaves it out, and the one after
/// that uses the first configuration file that is there, or the defaults of the tool where there is
/// none. Nothing else is forgotten.
pub proof fn law_deleted_config_recovers(state: ServerView, config_paths: Seq<Option<Seq<char>>>)
    requires
        state.standard is Some,
        command::is_file(state.standard->0),
    ensures
        command::effective_standard(state.standard, false) is None,
        ({
            let after = server::recovered(state, false, config_paths);
            &&& command::effective_standard(after.standard, true) == config::first_found(
                config_paths,
            )
            &&& after == (ServerView { standard: after.standard, ..state })
        }),
{
}

/// A coding standard that is a name, or a file that is there, stays as it is.
pub proof fn law_sound_standard_stays(
    state: ServerView,
    standard_exists: bool,
    config_paths: Seq<Option<Seq<char>>>,
)
    requires
        !command::standard_missing(state.standard, standard_exists),
    ensures
        server::recovered(state, standard_exists, config_paths) == state,
        command::effective_standard(state.standard, standard_exists) == state.standard,
{
}

/// When the project is switched, the configuration is looked for anew: the next run goes by the
/// first configuration file of the new project, and without one by the standard that the user has
/// set. Nothing is kept that belongs to the old project: neither what was found of the tools nor any
/// findings. What the user has set stays, and so do the open documents.
pub proof fn law_switch_rediscovers(
    state: ServerView,
    config_paths: Seq<Option<Seq<char>>>,
    tool: PhpTool,
)
    ensures
        ({
            let after = server::switched(state, config_paths);
            &&& config::first_found(config_paths) matches Some(path) ==> command::effective_standard(
                after.standard,
                true,
            ) == Some(path)
            &&& config::first_found(config_paths) is None ==> after.standard == state.user_standard
            &&& after.tool_path(tool) is None
            &&& after.user_path(tool) == state.user_path(tool)
            &&& server::search(after, tool) == tools::first_step(state.user_path(tool))
            &&& after.results == Map::<Seq<char>, server::ResultsView>::empty()
            &&& after.docs == state.docs
            &&& after.memory == state.memory
            &&& after.workspace_root == state.workspace_root
        }),
{
}

/// A coding standard that does not work gives way to another one, and to the defaults of the tool in
/// the end: what takes its place counts less, and a run by the defaults is never tried again.
pub proof fn law_failing_standards_end_in_defaults(
    state: ServerView,
    used: Option<Seq<char>>,
    outcome: ToolOutcome,
    config_paths: Seq<Option<Seq<char>>>,
)
    requires
        server::standard_failed(state, used, outcome),
    ensures
        ({
            let after = server::reconfigured(state, used, outcome, config_paths);
            &&& after.standard != state.standard
            &&& after.standard matches Some(path) ==> config::last_position(config_paths, used->0)
                < config::last_position(config_paths, path) < config_paths.len()
            &&& after == (ServerView { standard: after.standard, ..state })
        }),
        !server::standard_failed(state, None, outcome),
{
    config::law_fallback_counts_less(config_paths, used->0);
}

/// A lint run that reports on the document never changes the configuration, whatever it found.
pub proof fn law_reports_keep_the_configuration(
    state: ServerView,
    used: Option<Seq<char>>,
    outcome: ToolOutcome,
    config_paths: Seq<Option<Seq<char>>>,
)
    requires
        command::lint_output(outcome) is Ok,
        json::parsed_json(command::lint_output(outcome)->Ok_0) is Some,
        json::parsed_json(command::lint_output(outcome)->Ok_0)->0.get("files"@) is Some,
    ensures
        server::reconfigured(state, used, outcome, config_paths) == state,
{
}

/// One finding that can be fixed is enough, wherever it stands among the findings that are kept for an
/// open document: fixes are offered. Where none can be fixed, and where none are kept, nothing is
/// offered.
pub proof fn law_any_fixable_finding_is_offered(
    state: ServerView,
    uri: Seq<char>,
    kinds: Option<Seq<Seq<char>>>,
    found: Seq<actions::CursorView>,
    now: u64,
)
    requires
        !actions::asks_fix_all(kinds),
        state.docs.contains_key(uri),
    ensures
        ({
            let kept = state.results[uri].diagnostics;
            let step = server::action_step(state, uri, kinds, found, now);
            &&& state.results.contains_key(uri) ==> forall|i: int|
                0 <= i < kept.len() && (#[trigger] kept[i]).fixable ==> step
                    == (server::ActionStepView::Offer {
                    content: state.docs[uri].content(),
                    runs: actions::all_runs(found),
                })
            &&& state.results.contains_key(uri) && (forall|i: int|
                0 <= i < kept.len() ==> !(#[trigger] kept[i]).fixable) ==> step is Done
            &&& !state.results.contains_key(uri) ==> step is Done
            &&& state.results.contains_key(uri) ==> forall|i: int|
                0 <= i < kept.len() && (#[trigger] kept[i]).fixable ==> server::has_fixable(state, uri)
            &&& server::has_fixable(state, uri) ==> state.results.contains_key(uri) && exists|i: int|
                0 <= i < kept.len() && (#[trigger] kept[i]).fixable
        }),
{
}

/// Where a document is not open there is nothing to offer. One that is open, and was not fixed as a
/// whole within the last five seconds, is fixed as a whole where that is asked for, whatever was
/// found in it.
pub proof fn law_fix_all_needs_no_findings(
    state: ServerView,
    uri: Seq<char>,
    kinds: Option<Seq<Seq<char>>>,
    found: Seq<actions::CursorView>,
    now: u64,
)
    ensures
        !state.docs.contains_key(uri) ==> server::action_step(state, uri, kinds, found, now) is Done,
        state.docs.contains_key(uri) && actions::asks_fix_all(kinds) && (!state.cooldown.contains_key(
            uri,
        ) || now - state.cooldown[uri] >= 5_000_000_000) ==> server::action_step(
            state,
            uri,
            kinds,
            found,
            now,
        ) == (server::ActionStepView::FixAll { content: state.docs[uri].content() }),
{
}

/// The paths of the tools that the user sets: one that stands by itself counts, one in the section for
/// the server counts where none stands by itself, and where there is neither the path stays.
pub proof fn law_settings_name_the_tools(
    state: ServerView,
    settings: json::JsonView,
    nested: Option<PhpcsSettings>,
)
    ensures
        ({
            let after = server::configured(state, settings, nested);
            let phpcs = settings.text_member("phpcs_path"@);
            let phpcbf = settings.text_member("phpcbf_path"@);
            &&& phpcs matches Some(d) ==> after.user_path(PhpTool::Phpcs) == Some(d)
            &&& phpcs is None ==> (nested matches Some(n) ==> (n.phpcs_path matches Some(p)
                ==> after.user_path(PhpTool::Phpcs) == Some(p@)))
            &&& phpcs is None && (nested is None || nested->0.phpcs_path is None)
                ==> after.user_path(PhpTool::Phpcs) == state.user_path(PhpTool::Phpcs)
            &&& phpcbf matches Some(d) ==> after.user_path(PhpTool::Phpcbf) == Some(d)
            &&& phpcbf is None ==> (nested matches Some(n) ==> (n.phpcbf_path matches Some(p)
                ==> after.user_path(PhpTool::Phpcbf) == Some(p@)))
            &&& phpcbf is None && (nested is None || nested->0.phpcbf_path is None)
                ==> after.user_path(PhpTool::Phpcbf) == state.user_path(PhpTool::Phpcbf)
        }),
{
}

/// The coding standard that the settings name: one that stands by itself counts, one in the section
/// for the server counts where none stands by itself, and where there is neither the standard stays.
/// It is in force, and it is the user's own.
pub proof fn law_settings_name_the_standard(
    state: ServerView,
    settings: json::JsonView,
    nested: Option<PhpcsSettings>,
)
    ensures
        ({
            let after = server::configured(state, settings, nested);
            let direct = settings.text_member("standard"@);
            &&& direct matches Some(d) ==> after.standard == Some(d) && after.user_standard == Some(d)
            &&& direct is None ==> (nested matches Some(n) ==> (n.standard matches Some(p)
                ==> after.standard == Some(p@) && after.user_standard == Some(p@)))
            &&& direct is None && (nested is None || nested->0.standard is None) ==> after.standard
                == state.standard && after.user_standard == state.user_standard
            &&& after.cooldown == state.cooldown
            &&& after.workspace_root == state.workspace_root
        }),
{
}

/// Settings that name a new path for the linter, or any path for the fixer, make the server look for
/// both tools anew. Settings that name no path, or only the path that the linter has, do not.
pub proof fn law_settings_that_make_the_tools_be_found_anew(
    state: ServerView,
    settings: json::JsonView,
    nested: Option<PhpcsSettings>,
    tool: PhpTool,
)
    ensures
        ({
            let after = server::configured(state, settings, nested);
            let phpcs = settings.text_member("phpcs_path"@);
            let phpcbf = settings.text_member("phpcbf_path"@);
            let fixer_named = phpcbf is Some || (nested is Some && nested->0.phpcbf_path is Some);
            let section_same = nested is None || nested->0.phpcs_path is None || Some(
                nested->0.phpcs_path->0@,
            ) == state.user_path(PhpTool::Phpcs);
            let direct_same = phpcs is None || phpcs == state.user_path(PhpTool::Phpcs);
            &&& fixer_named ==> after.tool_path(tool) is None
            &&& !section_same ==> after.tool_path(tool) is None
            &&& after.user_path(PhpTool::Phpcs) != state.user_path(PhpTool::Phpcs)
                ==> after.tool_path(tool) is None
            &&& !fixer_named && section_same && direct_same ==> after.tool_path(tool)
                == state.tool_path(tool)
        }),
{
}

/// What a client asks for when it starts the server is what the server goes by, and what it does not
/// ask for stays as it is. A standard that is no configuration file of the project is the user's
/// own.
pub proof fn law_client_options_are_taken(
    state: ServerView,
    root: Option<Seq<char>>,
    options: InitializationOptions,
    config_paths: Seq<Option<Seq<char>>>,
)
    ensures
        ({
            let after = server::initialized(
                state,
                root,
                ClientOptions::Given(options),
                config_paths,
            );
            &&& options.standard matches Some(s) ==> after.standard == Some(s@)
            &&& options.standard is None ==> after.standard == state.standard && after.user_standard
                == state.user_standard
            &&& options.standard matches Some(s) ==> (if config::project_config(root, s@) {
                after.user_standard == state.user_standard
            } else {
                after.user_standard == Some(s@)
            })
            &&& options.phpcs_path matches Some(p) ==> after.user_path(PhpTool::Phpcs) == Some(p@)
            &&& options.phpcs_path is None ==> after.user_path(PhpTool::Phpcs) == state.user_path(
                PhpTool::Phpcs,
            )
            &&& options.phpcbf_path matches Some(p) ==> after.user_path(PhpTool::Phpcbf) == Some(p@)
            &&& options.phpcbf_path is None ==> after.user_path(PhpTool::Phpcbf) == state.user_path(
                PhpTool::Phpcbf,
            )
            &&& after.docs == state.docs
            &&& after.results == state.results
            &&& after.memory == state.memory
            &&& after.cooldown == state.cooldown
            &&& after.tool_path(PhpTool::Phpcs) == state.tool_path(PhpTool::Phpcs)
            &&& after.tool_path(PhpTool::Phpcbf) == state.tool_path(PhpTool::Phpcbf)
        }),
{
}

/// A client that says nothing when it starts the server gets the standard of the first configuration
/// file that is there, or none, and one whose options cannot be read gets no other standard. Nothing
/// else changes.
pub proof fn law_start_without_options(
    state: ServerView,
    root: Option<Seq<char>>,
    config_paths: Seq<Option<Seq<char>>>,
    i: int,
)
    requires
        0 <= i < config_paths.len(),
        forall|j: int| 0 <= j < i ==> (#[trigger] config_paths[j]) is None,
    ensures
        ({
            let silent = server::initialized(state, root, ClientOptions::Absent, config_paths);
            let unread = server::initialized(state, root, ClientOptions::Invalid, config_paths);
            &&& config_paths[i] is Some ==> silent.standard == config_paths[i]
            &&& config_paths[i] is None && i == config_paths.len() - 1 ==> silent.standard is None
            &&& silent == (ServerView {
                workspace_root: root,
                standard: silent.standard,
                ..state
            })
            &&& unread == (ServerView { workspace_root: root, ..state })
        }),
{
    config::law_first_config_wins(config_paths);
}

/// A request about what is no file is answered with no findings. One about a file is answered with the
/// findings that are kept, linted with the text that is open, or, where neither is there, goes on
/// with reading the file.
pub proof fn law_requests_for_findings(
    state: ServerView,
    uri: Seq<char>,
    previous: Option<Seq<char>>,
)
    ensures
        server::diagnostic_step(state, uri, false, previous) == server::DiagnosticStepView::Reply(
            server::ReportView::Full { result_id: None, items: Seq::empty() },
        ),
        state.results.contains_key(uri) && previous == Some(state.results[uri].result_id)
            ==> server::diagnostic_step(state, uri, true, previous)
            == server::DiagnosticStepView::Reply(
            server::ReportView::Unchanged(state.results[uri].result_id),
        ),
        state.results.contains_key(uri) && previous != Some(state.results[uri].result_id)
            ==> server::diagnostic_step(state, uri, true, previous)
            == server::DiagnosticStepView::Reply(
            server::ReportView::Full {
                result_id: Some(state.results[uri].result_id),
                items: state.results[uri].diagnostics,
            },
        ),
        !state.results.contains_key(uri) && state.docs.contains_key(uri) ==> server::diagnostic_step(
            state,
            uri,
            true,
            previous,
        ) == (server::DiagnosticStepView::Lint {
            content: state.docs[uri].content(),
            result_id: state.docs[uri].checksum,
        }),
        !state.results.contains_key(uri) && !state.docs.contains_key(uri)
            ==> server::diagnostic_step(state, uri, true, previous) is ReadFile,
{
    assert(Seq::<crate::diagnostics::DiagnosticView>::empty() =~= seq![]);
}

/// A lint run that ended, with whatever exit code, is remembered and told: its findings, in the text
/// that the document has, are kept under the name that they were given, and are what the client is
/// told. Nothing else changes.
pub proof fn law_findings_are_kept_and_told(
    state: ServerView,
    uri: Seq<char>,
    result_id: Seq<char>,
    exit_code: Option<i32>,
    stdout: Vec<u8>,
    other: Seq<char>,
)
    requires
        other != uri,
    ensures
        ({
            let outcome = ToolOutcome::Finished { exit_code, stdout };
            let found = crate::diagnostics::findings_of_output(
                command::lossy_text(stdout@),
                state.content(uri),
                uri,
            );
            let after = server::linted(state, uri, result_id, outcome);
            &&& after.results.contains_key(uri)
            &&& after.results[uri].diagnostics == found
            &&& after.results[uri].result_id == result_id
            &&& after.results.contains_key(other) == state.results.contains_key(other)
            &&& after.results.contains_key(other) ==> after.results[other] == state.results[other]
            &&& after == (ServerView { results: after.results, ..state })
            &&& server::linted_report(state, uri, result_id, outcome) == (server::ReportView::Full {
                result_id: Some(result_id),
                items: found,
            })
        }),
{
}

/// A lint run that did not end is answered with no findings, under no name.
pub proof fn law_failed_run_tells_nothing(
    state: ServerView,
    uri: Seq<char>,
    result_id: Seq<char>,
    outcome: ToolOutcome,
)
    requires
        !(outcome is Finished),
    ensures
        server::linted_report(state, uri, result_id, outcome) == (server::ReportView::Full {
            result_id: None,
            items: Seq::empty(),
        }),
        server::linted(state, uri, result_id, outcome).results == state.results,
{
    assert(Seq::<crate::diagnostics::DiagnosticView>::empty() =~= seq![]);
}

/// A document that is opened, changed or loaded is open, with the text in a form that gives it back;
/// the configuration and the time of earlier fixes stay.
pub proof fn law_documents_keep_the_configuration(
    before: ServerView,
    after: ServerView,
    uri: Seq<char>,
    content: Seq<char>,
)
    requires
        ({
            ||| server::opened(before, after, uri, content)
            ||| server::changed(before, after, uri, content)
            ||| server::loaded(before, after, uri, content)
            ||| after == server::closed_doc(before, uri)
        }),
    ensures
        after == server::closed_doc(before, uri) || after.docs.contains_key(uri),
        after.docs.dom().remove(uri) == before.docs.dom().remove(uri),
        after.standard == before.standard,
        after.user_standard == before.user_standard,
        after.phpcs_path == before.phpcs_path,
        after.phpcbf_path == before.phpcbf_path,
        after.user_phpcs_path == before.user_phpcs_path,
        after.user_phpcbf_path == before.user_phpcbf_path,
        after.cooldown == before.cooldown,
        after.workspace_root == before.workspace_root,
{
    assert(after.docs.dom().remove(uri) =~= before.docs.dom().remove(uri));
}

/// A file that is loaded because its findings were asked for leaves the findings that are kept as
/// they are.
pub proof fn law_loading_keeps_findings(
    before: ServerView,
    after: ServerView,
    uri: Seq<char>,
    content: Seq<char>,
)
    requires
        server::loaded(before, after, uri, content),
    ensures
        after.results == before.results,
        server::lint_step(after.docs[uri]) == (server::DiagnosticStepView::Lint {
            content,
            result_id: document::checksum_of(content),
        }),
{
}

/// Where one tool was found says nothing of where the other is, nor of anything else.
pub proof fn law_tools_are_found_apart(state: ServerView, path: Seq<char>)
    ensures
        ({
            let linter = state.with_tool_path(PhpTool::Phpcs, path);
            let fixer = state.with_tool_path(PhpTool::Phpcbf, path);
            &&& linter.tool_path(PhpTool::Phpcs) == Some(path)
            &&& linter.tool_path(PhpTool::Phpcbf) == state.tool_path(PhpTool::Phpcbf)
            &&& fixer.tool_path(PhpTool::Phpcbf) == Some(path)
            &&& fixer.tool_path(PhpTool::Phpcs) == state.tool_path(PhpTool::Phpcs)
            &&& linter == (ServerView { phpcs_path: Some(path), ..state })
            &&& fixer == (ServerView { phpcbf_path: Some(path), ..state })
        }),
{
}

/// The two tools have each a path of their own that was found, and one that the user has set.
pub proof fn law_paths_belong_to_their_tools(state: ServerView)
    ensures
        state.tool_path(PhpTool::Phpcs) == state.phpcs_path,
        state.tool_path(PhpTool::Phpcbf) == state.phpcbf_path,
        state.user_path(PhpTool::Phpcs) == state.user_phpcs_path,
        state.user_path(PhpTool::Phpcbf) == state.user_phpcbf_path,
{
}

/// A tool that was not found before is searched for: it is where the user says, unless that is blank
/// or not said, and is looked for in the project first otherwise.
pub proof fn law_search_starts_with_the_user(state: ServerView, tool: PhpTool)
    requires
        state.tool_path(tool) is None,
    ensures
        state.user_path(tool) matches Some(path) ==> !text::blank(path) ==> server::search(state, tool)
            == tools::DetectView::Found(path),
        state.user_path(tool) is None || text::blank(state.user_path(tool)->0) ==> server::search(
            state,
            tool,
        ) == tools::DetectView::Look(tools::Place::VendorBin),
{
}

/// A server that starts knows of nothing.
pub proof fn law_server_starts_empty(uri: Seq<char>, tool: PhpTool)
    ensures
        ({
            let state = server::initial();
            &&& state.content(uri) is None
            &&& !state.results.contains_key(uri)
            &&& !state.cooldown.contains_key(uri)
            &&& state.memory == 0
            &&& state.standard is None
            &&& state.user_standard is None
            &&& state.tool_path(tool) is None
            &&& state.user_path(tool) is None
            &&& state.workspace_root is None
        }),
{
}

/// A standard is given up if and only if the run went by it, it is still in force, and the run shows
/// a fault in the configuration; the next configuration file takes its place.
pub proof fn law_standard_is_given_up_for_a_fault(
    state: ServerView,
    used: Option<Seq<char>>,
    outcome: ToolOutcome,
    config_paths: Seq<Option<Seq<char>>>,
)
    ensures
        ({
            let after = server::reconfigured(state, used, outcome, config_paths);
            let fault = used is Some && used == state.standard && command::config_error(outcome);
            &&& server::standard_failed(state, used, outcome) == fault
            &&& fault ==> after.standard == config::fallback(config_paths, used->0)
            &&& !fault ==> after == state
            &&& after.user_standard == state.user_standard
            &&& after.results == state.results
            &&& after.docs == state.docs
        }),
{
}

/// A fix of a whole document that changed it is remembered for that document with its time, and
/// nothing else is.
pub proof fn law_fix_is_remembered(
    state: ServerView,
    uri: Seq<char>,
    content: Seq<char>,
    fixed: Seq<char>,
    now: u64,
)
    requires
        fixed != content,
    ensures
        server::fixed_all(state, uri, content, Some(fixed), now) == (ServerView {
            cooldown: state.cooldown.insert(uri, now),
            ..state
        }),
{
}

/// What a document takes is added when it is opened or loaded. When it is changed, what it took before
/// makes room first, and when it is closed, what it took is free again.
pub proof fn law_memory_counts_documents(
    before: ServerView,
    after: ServerView,
    uri: Seq<char>,
    content: Seq<char>,
)
    requires
        before.valid(),
        after.valid(),
        before.docs.contains_key(uri) ==> before.docs[uri].data.len() <= before.memory,
        before.memory + after.docs[uri].data.len() <= usize::MAX,
    ensures
        server::opened(before, after, uri, content) ==> after.memory == before.memory
            + after.docs[uri].data.len(),
        server::loaded(before, after, uri, content) ==> after.memory == before.memory
            + after.docs[uri].data.len(),
        server::changed(before, after, uri, content) && before.docs.contains_key(uri) ==> after.memory
            == before.memory - before.docs[uri].data.len() + after.docs[uri].data.len(),
        server::changed(before, after, uri, content) && !before.docs.contains_key(uri)
            ==> after.memory == before.memory + after.docs[uri].data.len(),
        after == server::closed_doc(before, uri) && before.docs.contains_key(uri) ==> after.memory
            == before.memory - before.docs[uri].data.len(),
        after == server::closed_doc(before, uri) && !before.docs.contains_key(uri) ==> after.memory
            == before.memory,
{
    if server::opened(before, after, uri, content) || server::loaded(before, after, uri, content)
        || server::changed(before, after, uri, content) {
        assert(after.docs.contains_key(uri));
    }
}

} // verus!
