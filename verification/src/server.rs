//! The state of the language server, and what each message does to it.
use crate::actions;
use crate::actions::{CodeAction, CursorDiagnostic, FixRun};
use crate::command;
use crate::command::{ToolCommand, ToolError, ToolOutcome};
use crate::config;
use crate::diagnostics;
use crate::diagnostics::Diagnostic;
use crate::document;
use crate::document::CompressedDocument;
use crate::json::Json;
use crate::text;
use crate::tools;
use crate::tools::{DetectStep, PhpTool, Places};
use crate::uri_map::UriMap;
use vstd::prelude::*;

verus! {

/// The findings for a document, kept for as long as its text stays the same.
#[derive(Debug)]
pub struct CachedResults {
    pub diagnostics: Vec<Diagnostic>,
    pub result_id: String,
}

/// What is kept of the findings for a document.
#[verifier::ext_equal]
pub struct ResultsView {
    pub diagnostics: Seq<diagnostics::DiagnosticView>,
    pub result_id: Seq<char>,
}

impl View for CachedResults {
    type V = ResultsView;

    open spec fn view(&self) -> ResultsView {
        ResultsView {
            diagnostics: diagnostics::diagnostics_view(self.diagnostics@),
            result_id: self.result_id@,
        }
    }
}

/// What a client asks for when it starts the server.
#[derive(Debug)]
pub struct InitializationOptions {
    pub standard: Option<String>,
    pub phpcs_path: Option<String>,
    pub phpcbf_path: Option<String>,
}

/// What a client says when it starts the server.
#[derive(Debug)]
pub enum ClientOptions {
    /// Nothing.
    Absent,
    /// Something that cannot be read.
    Invalid,
    /// What it asks for.
    Given(InitializationOptions),
}

/// Settings that change while the server runs.
#[derive(Debug)]
pub struct PhpcsSettings {
    pub standard: Option<String>,
    pub phpcs_path: Option<String>,
    pub phpcbf_path: Option<String>,
}

/// The state of the language server.
pub struct PhpcsLanguageServer {
    open_docs: UriMap<CompressedDocument>,
    results_cache: UriMap<CachedResults>,
    total_memory_usage: usize,
    standard: Option<String>,
    user_standard: Option<String>,
    phpcs_path: Option<String>,
    phpcbf_path: Option<String>,
    user_phpcs_path: Option<String>,
    user_phpcbf_path: Option<String>,
    fix_all_cooldown: UriMap<u64>,
    workspace_root: Option<String>,
}

/// What the server knows.
#[verifier::ext_equal]
pub struct ServerView {
    /// The documents that are open.
    pub docs: Map<Seq<char>, document::DocumentView>,
    /// The findings for documents whose text has not changed since.
    pub results: Map<Seq<char>, ResultsView>,
    /// The size of the open documents, as far as it is kept track of.
    pub memory: usize,
    /// The coding standard; without one the tools go by their own defaults.
    pub standard: Option<Seq<char>>,
    /// The coding standard that the user has set, for whatever project.
    pub user_standard: Option<Seq<char>>,
    /// Where the tools were found.
    pub phpcs_path: Option<Seq<char>>,
    pub phpcbf_path: Option<Seq<char>>,
    /// Where the user says that the tools are.
    pub user_phpcs_path: Option<Seq<char>>,
    pub user_phpcbf_path: Option<Seq<char>>,
    /// When a document was last fixed as a whole, in nanoseconds.
    pub cooldown: Map<Seq<char>, u64>,
    /// The folder of the project, as a path.
    pub workspace_root: Option<Seq<char>>,
}

impl ServerView {
    /// Whether finitely many documents are open, each of which holds a text and fits in memory.
    pub open spec fn valid(self) -> bool {
        &&& self.docs.dom().finite()
        &&& forall|uri: Seq<char>| #[trigger]
            self.docs.contains_key(uri) ==> self.docs[uri].sound() && self.docs[uri].data.len()
                <= usize::MAX
    }

    /// The text of an open document.
    pub open spec fn content(self, uri: Seq<char>) -> Option<Seq<char>> {
        if self.docs.contains_key(uri) {
            Some(self.docs[uri].content())
        } else {
            None
        }
    }

    /// The size of an open document; nothing where it is not open.
    pub open spec fn size(self, uri: Seq<char>) -> usize {
        if self.docs.contains_key(uri) {
            self.docs[uri].data.len() as usize
        } else {
            0
        }
    }

    /// Where a tool was found.
    pub open spec fn tool_path(self, tool: PhpTool) -> Option<Seq<char>> {
        match tool {
            PhpTool::Phpcs => self.phpcs_path,
            PhpTool::Phpcbf => self.phpcbf_path,
        }
    }

    /// Where the user says that a tool is.
    pub open spec fn user_path(self, tool: PhpTool) -> Option<Seq<char>> {
        match tool {
            PhpTool::Phpcs => self.user_phpcs_path,
            PhpTool::Phpcbf => self.user_phpcbf_path,
        }
    }

    /// The same, with another place where a tool was found.
    pub open spec fn with_tool_path(self, tool: PhpTool, path: Seq<char>) -> ServerView {
        match tool {
            PhpTool::Phpcs => ServerView { phpcs_path: Some(path), ..self },
            PhpTool::Phpcbf => ServerView { phpcbf_path: Some(path), ..self },
        }
    }
}

impl View for PhpcsLanguageServer {
    type V = ServerView;

    closed spec fn view(&self) -> ServerView {
        ServerView {
            docs: self.open_docs@,
            results: self.results_cache@,
            memory: self.total_memory_usage,
            standard: text::optional_string(self.standard),
            user_standard: text::optional_string(self.user_standard),
            phpcs_path: text::optional_string(self.phpcs_path),
            phpcbf_path: text::optional_string(self.phpcbf_path),
            user_phpcs_path: text::optional_string(self.user_phpcs_path),
            user_phpcbf_path: text::optional_string(self.user_phpcbf_path),
            cooldown: self.fix_all_cooldown@,
            workspace_root: text::optional_string(self.workspace_root),
        }
    }
}

/// What the server knows when it starts.
pub open spec fn initial() -> ServerView {
    ServerView {
        docs: Map::empty(),
        results: Map::empty(),
        memory: 0,
        standard: None,
        user_standard: None,
        phpcs_path: None,
        phpcbf_path: None,
        user_phpcs_path: None,
        user_phpcbf_path: None,
        cooldown: Map::empty(),
        workspace_root: None,
    }
}

/// A value that a client may leave as it is.
pub open spec fn updated(old_value: Option<Seq<char>>, new_value: Option<Seq<char>>) -> Option<
    Seq<char>,
> {
    if new_value is Some {
        new_value
    } else {
        old_value
    }
}

/// A coding standard that a client names, where it is the user's own choice and not a configuration
/// file of the project.
pub open spec fn own_choice(
    root: Option<Seq<char>>,
    standard: Option<Seq<char>>,
) -> Option<Seq<char>> {
    if standard is Some && config::project_config(root, standard->0) {
        None
    } else {
        standard
    }
}

/// What the server knows once a client has started it in a folder. Options that cannot be read change
/// nothing else; without options the coding standard comes from the configuration files.
pub open spec fn initialized(
    state: ServerView,
    root: Option<Seq<char>>,
    options: ClientOptions,
    config_paths: Seq<Option<Seq<char>>>,
) -> ServerView {
    match options {
        ClientOptions::Absent => ServerView {
            workspace_root: root,
            standard: config::first_found(config_paths),
            ..state
        },
        ClientOptions::Invalid => ServerView { workspace_root: root, ..state },
        ClientOptions::Given(o) => ServerView {
            workspace_root: root,
            standard: updated(state.standard, text::optional_string(o.standard)),
            user_standard: updated(
                state.user_standard,
                own_choice(root, text::optional_string(o.standard)),
            ),
            user_phpcs_path: updated(state.user_phpcs_path, text::optional_string(o.phpcs_path)),
            user_phpcbf_path: updated(state.user_phpcbf_path, text::optional_string(o.phpcbf_path)),
            ..state
        },
    }
}

/// What the server knows once a document has a new text. Its findings are forgotten.
pub open spec fn stored(
    state: ServerView,
    uri: Seq<char>,
    doc: document::DocumentView,
    memory: usize,
) -> ServerView {
    ServerView {
        docs: state.docs.insert(uri, doc),
        results: state.results.remove(uri),
        memory: memory.wrapping_add(doc.data.len() as usize),
        ..state
    }
}

/// Whether a document was opened with the given text.
pub open spec fn opened(
    before: ServerView,
    after: ServerView,
    uri: Seq<char>,
    content: Seq<char>,
) -> bool {
    &&& after.docs[uri].holds(content)
    &&& after == stored(before, uri, after.docs[uri], before.memory)
}

/// Whether a document was given a new text, for which the old one made room.
pub open spec fn changed(
    before: ServerView,
    after: ServerView,
    uri: Seq<char>,
    content: Seq<char>,
) -> bool {
    &&& after.docs[uri].holds(content)
    &&& after == stored(
        before,
        uri,
        after.docs[uri],
        before.memory.wrapping_sub(before.size(uri)),
    )
}

/// What the server knows once a document is closed.
pub open spec fn closed_doc(state: ServerView, uri: Seq<char>) -> ServerView {
    ServerView {
        docs: state.docs.remove(uri),
        results: state.results.remove(uri),
        memory: state.memory.wrapping_sub(state.size(uri)),
        ..state
    }
}

/// What the server knows once the project is switched. The coding standard comes from the
/// configuration files of the new project; without any it is the one that the user has set. Where
/// the tools were found is forgotten, and so are all findings. Paths that the user has set stay.
pub open spec fn switched(
    state: ServerView,
    config_paths: Seq<Option<Seq<char>>>,
) -> ServerView {
    ServerView {
        phpcs_path: None,
        phpcbf_path: None,
        standard: updated(state.user_standard, config::first_found(config_paths)),
        results: Map::empty(),
        ..state
    }
}

/// The setting with the given name that stands beside the section for the server.
pub open spec fn direct_setting(settings: crate::json::JsonView, name: Seq<char>) -> Option<
    Seq<char>,
> {
    settings.text_member(name)
}

/// A setting of the section for the server.
pub open spec fn nested_setting(
    nested: Option<PhpcsSettings>,
    pick: spec_fn(PhpcsSettings) -> Option<String>,
) -> Option<Seq<char>> {
    match nested {
        Some(s) => text::optional_string(pick(s)),
        None => None,
    }
}

/// What the server knows once settings have changed. A setting that stands by itself counts more
/// than one in the section for the server. A new path for a tool takes effect at once: what was
/// found of the tools is forgotten. All findings are forgotten.
pub open spec fn configured(
    state: ServerView,
    settings: crate::json::JsonView,
    nested: Option<PhpcsSettings>,
) -> ServerView {
    let nested_standard = nested_setting(nested, |s: PhpcsSettings| s.standard);
    let nested_phpcs = nested_setting(nested, |s: PhpcsSettings| s.phpcs_path);
    let nested_phpcbf = nested_setting(nested, |s: PhpcsSettings| s.phpcbf_path);
    let direct_standard = direct_setting(settings, "standard"@);
    let direct_phpcs = direct_setting(settings, "phpcs_path"@);
    let direct_phpcbf = direct_setting(settings, "phpcbf_path"@);
    let section_phpcs = updated(state.user_phpcs_path, nested_phpcs);
    let user_phpcs_path = updated(section_phpcs, direct_phpcs);
    let path_changed = section_phpcs != state.user_phpcs_path || user_phpcs_path != section_phpcs
        || nested_phpcbf is Some || direct_phpcbf is Some;
    ServerView {
        standard: updated(updated(state.standard, nested_standard), direct_standard),
        user_standard: updated(updated(state.user_standard, nested_standard), direct_standard),
        user_phpcs_path,
        user_phpcbf_path: updated(updated(state.user_phpcbf_path, nested_phpcbf), direct_phpcbf),
        phpcs_path: if path_changed {
            None
        } else {
            state.phpcs_path
        },
        phpcbf_path: if path_changed {
            None
        } else {
            state.phpcbf_path
        },
        results: Map::empty(),
        ..state
    }
}

/// How the search for a tool starts: it is over where the tool was found before.
pub open spec fn search(state: ServerView, tool: PhpTool) -> tools::DetectView {
    match state.tool_path(tool) {
        Some(path) => tools::DetectView::Found(path),
        None => tools::first_step(state.user_path(tool)),
    }
}

/// Sets a value if there is a new one.
fn update(value: &mut Option<String>, new_value: &Option<String>)
    ensures
        text::optional_string(*final(value)) == updated(
            text::optional_string(*old(value)),
            text::optional_string(*new_value),
        ),
{
    if let Some(s) = new_value {
        *value = Some(s.clone());
    }
}

/// Whether two optional strings hold the same.
fn same_optional(a: &Option<String>, b: &Option<String>) -> (r: bool)
    ensures
        r == (text::optional_string(*a) == text::optional_string(*b)),
{
    match (a, b) {
        (Some(a), Some(b)) => text::same_text(a, b),
        (None, None) => true,
        _ => false,
    }
}

impl PhpcsLanguageServer {
    /// What holds of the server at all times.
    pub closed spec fn wf(&self) -> bool {
        self@.valid()
    }

    /// Finitely many documents are open, each of which holds a text and fits in memory.
    pub proof fn lemma_valid(&self)
        requires
            self.wf(),
        ensures
            self@.valid(),
    {
    }

    /// A server that has not been started by a client yet.
    pub fn new() -> (server: PhpcsLanguageServer)
        ensures
            server.wf(),
            server@ == initial(),
    {
        PhpcsLanguageServer {
            open_docs: UriMap::new(),
            results_cache: UriMap::new(),
            total_memory_usage: 0,
            standard: None,
            user_standard: None,
            phpcs_path: None,
            phpcbf_path: None,
            user_phpcs_path: None,
            user_phpcbf_path: None,
            fix_all_cooldown: UriMap::new(),
            workspace_root: None,
        }
    }

    /// A client starts the server, in a folder if it names one that is a path. The other paths are
    /// those of the configuration files in it that are there, in the order of their names.
    pub fn initialize(
        &mut self,
        root: Option<&str>,
        options: &ClientOptions,
        config_paths: &Vec<Option<String>>,
    )
        requires
            old(self).wf(),
        ensures
            final(self).wf(),
            final(self)@ == initialized(
                old(self)@,
                text::optional(root),
                *options,
                config::optional_texts(config_paths@),
            ),
    {
        self.workspace_root = text::own_optional(root);
        match options {
            ClientOptions::Absent => {
                self.discover_standard(config_paths);
            },
            ClientOptions::Invalid => {},
            ClientOptions::Given(o) => {
                update(&mut self.standard, &o.standard);
                if let Some(standard) = &o.standard {
                    if !config::is_project_config(root, standard) {
                        self.user_standard = Some(standard.clone());
                    }
                }
                update(&mut self.user_phpcs_path, &o.phpcs_path);
                update(&mut self.user_phpcbf_path, &o.phpcbf_path);
            },
        }
    }

    /// Takes the coding standard from the configuration files that are there; without any, the
    /// tools go by their own defaults.
    pub fn discover_standard(&mut self, config_paths: &Vec<Option<String>>)
        requires
            old(self).wf(),
        ensures
            final(self).wf(),
            final(self)@ == (ServerView {
                standard: config::first_found(config::optional_texts(config_paths@)),
                ..old(self)@
            }),
    {
        self.standard = config::find_config(config_paths);
    }

    /// The coding standard, if one is set.
    pub fn standard(&self) -> (r: Option<&str>)
        ensures
            text::optional(r) == self@.standard,
    {
        text::borrow_optional(&self.standard)
    }

    /// The size of the open documents, as far as it is kept track of.
    pub fn memory_usage(&self) -> (r: usize)
        ensures
            r == self@.memory,
    {
        self.total_memory_usage
    }

    /// Starts the search for a tool, which is over where the tool was found before.
    pub fn search_tool(&self, tool: PhpTool) -> (r: DetectStep)
        ensures
            r@ == search(self@, tool),
    {
        let cached: &Option<String> = match tool {
            PhpTool::Phpcs => &self.phpcs_path,
            PhpTool::Phpcbf => &self.phpcbf_path,
        };
        match cached {
            Some(path) => DetectStep::Found(path.clone()),
            None => {
                let user: &Option<String> = match tool {
                    PhpTool::Phpcs => &self.user_phpcs_path,
                    PhpTool::Phpcbf => &self.user_phpcbf_path,
                };
                tools::detect_start(text::borrow_optional(user))
            },
        }
    }

    /// Keeps where a tool was found.
    pub fn store_tool_path(&mut self, tool: PhpTool, path: &str)
        requires
            old(self).wf(),
        ensures
            final(self).wf(),
            final(self)@ == old(self)@.with_tool_path(tool, path@),
    {
        match tool {
            PhpTool::Phpcs => {
                self.phpcs_path = Some(path.to_string());
            },
            PhpTool::Phpcbf => {
                self.phpcbf_path = Some(path.to_string());
            },
        }
    }

    /// Where a tool is: where it was found before, or where it is found now.
    pub fn get_tool_path(&mut self, tool: PhpTool, places: &Places) -> (r: String)
        requires
            old(self).wf(),
        ensures
            final(self).wf(),
            r@ == match old(self)@.tool_path(tool) {
                Some(path) => path,
                None => tools::detected(tool, old(self)@.user_path(tool), *places),
            },
            final(self)@ == old(self)@.with_tool_path(tool, r@),
    {
        let cached: &Option<String> = match tool {
            PhpTool::Phpcs => &self.phpcs_path,
            PhpTool::Phpcbf => &self.phpcbf_path,
        };
        if let Some(path) = cached {
            return path.clone();
        }
        let user: &Option<String> = match tool {
            PhpTool::Phpcs => &self.user_phpcs_path,
            PhpTool::Phpcbf => &self.user_phpcbf_path,
        };
        let path: String = tools::detect_tool_path(tool, text::borrow_optional(user), places);
        self.store_tool_path(tool, &path);
        path
    }

    /// The text of an open document.
    pub fn document_content(&self, uri: &str) -> (r: Option<String>)
        requires
            self.wf(),
        ensures
            text::optional_string(r) == self@.content(uri@),
    {
        match self.open_docs.get(uri) {
            Some(doc) => match doc.decompress_document() {
                Ok(s) => Some(s),
                Err(_) => None,
            },
            None => None,
        }
    }

    /// Compresses a text, counts its size and keeps it.
    fn store(&mut self, uri: &str, content: &str)
        requires
            old(self).wf(),
            document::storable(content@),
        ensures
            final(self).wf(),
            final(self)@.docs[uri@].holds(content@),
            final(self)@ == (ServerView {
                docs: old(self)@.docs.insert(uri@, final(self)@.docs[uri@]),
                memory: old(self)@.memory.wrapping_add(final(self)@.size(uri@)),
                ..old(self)@
            }),
    {
        let doc: CompressedDocument = CompressedDocument::compress_document(content);
        let ghost view = doc@;
        let size: usize = doc.compressed_size();
        self.total_memory_usage = self.total_memory_usage.wrapping_add(size);
        self.open_docs.insert(uri, doc);
        assert(view.sound());
        assert(self@.valid());
    }

    /// A document is opened: its text is kept, and what was found in an earlier text is forgotten.
    pub fn did_open(&mut self, uri: &str, content: &str)
        requires
            old(self).wf(),
            document::storable(content@),
        ensures
            final(self).wf(),
            opened(old(self)@, final(self)@, uri@, content@),
    {
        self.store(uri, content);
        self.results_cache.remove(uri);
        assert(self@ =~= stored(old(self)@, uri@, self@.docs[uri@], old(self)@.memory));
    }

    /// A document is changed. The client sends the whole text, so the first change is the text.
    pub fn did_change(&mut self, uri: &str, changes: &Vec<String>)
        requires
            old(self).wf(),
            changes@.len() > 0 ==> document::storable(changes@[0]@),
        ensures
            final(self).wf(),
            changes@.len() > 0 ==> changed(old(self)@, final(self)@, uri@, changes@[0]@),
            changes@.len() == 0 ==> final(self)@ == old(self)@,
    {
        if changes.len() > 0 {
            let old_size: usize = match self.open_docs.get(uri) {
                Some(doc) => doc.compressed_size(),
                None => 0,
            };
            self.total_memory_usage = self.total_memory_usage.wrapping_sub(old_size);
            self.store(uri, &changes[0]);
            self.results_cache.remove(uri);
            assert(self@ =~= stored(
                old(self)@,
                uri@,
                self@.docs[uri@],
                old(self)@.memory.wrapping_sub(old(self)@.size(uri@)),
            ));
        }
    }

    /// A document is closed: it is forgotten, with what was found in it.
    pub fn did_close(&mut self, uri: &str)
        requires
            old(self).wf(),
        ensures
            final(self).wf(),
            final(self)@ == closed_doc(old(self)@, uri@),
    {
        let freed: usize = match self.open_docs.get(uri) {
            Some(doc) => doc.compressed_size(),
            None => 0,
        };
        self.total_memory_usage = self.total_memory_usage.wrapping_sub(freed);
        self.open_docs.remove(uri);
        self.results_cache.remove(uri);
        assert(self@ =~= closed_doc(old(self)@, uri@));
    }

    /// The server is about to end: documents and findings are forgotten.
    pub fn shutdown(&mut self)
        requires
            old(self).wf(),
        ensures
            final(self).wf(),
            final(self)@ == (ServerView {
                docs: Map::empty(),
                results: Map::empty(),
                memory: 0,
                ..old(self)@
            }),
    {
        self.open_docs.clear();
        self.results_cache.clear();
        self.total_memory_usage = 0;
    }

    /// The folder of the project, as a path.
    pub fn workspace_root(&self) -> (r: Option<&str>)
        ensures
            text::optional(r) == self@.workspace_root,
    {
        text::borrow_optional(&self.workspace_root)
    }

    /// Folders were removed from the workspace and added to it. The server stays in its folder unless
    /// that is gone.
    pub fn change_folders(&mut self, removed: &Vec<String>, added: &Vec<String>)
        requires
            old(self).wf(),
        ensures
            final(self).wf(),
            final(self)@ == (ServerView {
                workspace_root: config::next_root(
                    old(self)@.workspace_root,
                    text::texts(removed@),
                    text::texts(added@),
                ),
                ..old(self)@
            }),
    {
        self.workspace_root = config::choose_root(
            text::borrow_optional(&self.workspace_root),
            removed,
            added,
        );
    }

    /// The project is switched. The paths are those of the configuration files of the new project
    /// that are there, in the order of their names.
    pub fn did_change_workspace_folders(&mut self, config_paths: &Vec<Option<String>>)
        requires
            old(self).wf(),
        ensures
            final(self).wf(),
            final(self)@ == switched(old(self)@, config::optional_texts(config_paths@)),
    {
        self.phpcs_path = None;
        self.phpcbf_path = None;
        self.standard = match config::find_config(config_paths) {
            Some(path) => Some(path),
            None => text::copy_optional(&self.user_standard),
        };
        self.results_cache.clear();
    }

    /// Settings change. Those of the section for the server are given beside all settings.
    pub fn did_change_configuration(&mut self, settings: &Json, nested: &Option<PhpcsSettings>)
        requires
            old(self).wf(),
        ensures
            final(self).wf(),
            final(self)@ == configured(old(self)@, settings@, *nested),
    {
        let before: Option<String> = text::copy_optional(&self.user_phpcs_path);
        let mut path_changed: bool = false;
        if let Some(section) = nested {
            update(&mut self.standard, &section.standard);
            update(&mut self.user_standard, &section.standard);
            update(&mut self.user_phpcs_path, &section.phpcs_path);
            update(&mut self.user_phpcbf_path, &section.phpcbf_path);
            path_changed = !same_optional(&self.user_phpcs_path, &before)
                || section.phpcbf_path.is_some();
        }
        let between: Option<String> = text::copy_optional(&self.user_phpcs_path);
        let standard: Option<String> = text::own_optional(settings.text_member("standard"));
        let phpcs_path: Option<String> = text::own_optional(settings.text_member("phpcs_path"));
        let phpcbf_path: Option<String> = text::own_optional(settings.text_member("phpcbf_path"));
        update(&mut self.standard, &standard);
        update(&mut self.user_standard, &standard);
        update(&mut self.user_phpcs_path, &phpcs_path);
        update(&mut self.user_phpcbf_path, &phpcbf_path);
        if !same_optional(&self.user_phpcs_path, &between) || phpcbf_path.is_some() {
            path_changed = true;
        }
        if path_changed {
            self.phpcs_path = None;
            self.phpcbf_path = None;
        }
        self.results_cache.clear();
        assert(self@ =~= configured(old(self)@, settings@, *nested));
    }
}

/// What a client is told of the findings for a document.
#[derive(Debug)]
pub enum Report {
    /// The findings are those that the client has, under the given name.
    Unchanged(String),
    /// The findings, and the name under which the client may ask again.
    Full { result_id: Option<String>, items: Vec<Diagnostic> },
}

/// What a client is told of the findings for a document.
#[verifier::ext_equal]
pub enum ReportView {
    Unchanged(Seq<char>),
    Full { result_id: Option<Seq<char>>, items: Seq<diagnostics::DiagnosticView> },
}

impl View for Report {
    type V = ReportView;

    open spec fn view(&self) -> ReportView {
        match self {
            Report::Unchanged(id) => ReportView::Unchanged(id@),
            Report::Full { result_id, items } => ReportView::Full {
                result_id: text::optional_string(*result_id),
                items: diagnostics::diagnostics_view(items@),
            },
        }
    }
}

/// How a request for findings goes on.
#[derive(Debug)]
pub enum DiagnosticStep {
    /// The answer is known.
    Reply(Report),
    /// The document is not open: its file has to be read.
    ReadFile,
    /// The text has to be linted; the findings get the given name.
    Lint { content: String, result_id: String },
}

/// How a request for findings goes on.
#[verifier::ext_equal]
pub enum DiagnosticStepView {
    Reply(ReportView),
    ReadFile,
    Lint { content: Seq<char>, result_id: Seq<char> },
}

impl View for DiagnosticStep {
    type V = DiagnosticStepView;

    open spec fn view(&self) -> DiagnosticStepView {
        match self {
            DiagnosticStep::Reply(report) => DiagnosticStepView::Reply(report@),
            DiagnosticStep::ReadFile => DiagnosticStepView::ReadFile,
            DiagnosticStep::Lint { content, result_id } => DiagnosticStepView::Lint {
                content: content@,
                result_id: result_id@,
            },
        }
    }
}

/// What the server knows once linting was prepared. Where the coding standard is a file that has
/// gone, another one is taken from the configuration files that are there.
pub open spec fn recovered(
    state: ServerView,
    standard_exists: bool,
    config_paths: Seq<Option<Seq<char>>>,
) -> ServerView {
    if command::standard_missing(state.standard, standard_exists) {
        ServerView { standard: config::first_found(config_paths), ..state }
    } else {
        state
    }
}

/// Whether a lint run with the given coding standard failed for that standard, and the standard is
/// still the one in force.
pub open spec fn standard_failed(
    state: ServerView,
    used: Option<Seq<char>>,
    outcome: ToolOutcome,
) -> bool {
    used is Some && used == state.standard && command::config_error(outcome)
}

/// What the server knows once a lint run is over, of the configuration: where the coding standard
/// does not work, the next configuration file is taken in its place, and without one the defaults of
/// the tool.
pub open spec fn reconfigured(
    state: ServerView,
    used: Option<Seq<char>>,
    outcome: ToolOutcome,
    config_paths: Seq<Option<Seq<char>>>,
) -> ServerView {
    if standard_failed(state, used, outcome) {
        ServerView { standard: config::fallback(config_paths, used->0), ..state }
    } else {
        state
    }
}

/// A lint run that is ready to start: its command line, and the coding standard that it goes by.
#[derive(Debug)]
pub struct PreparedLint {
    pub command: ToolCommand,
    pub standard: Option<String>,
}

/// The answer where there is nothing to tell.
pub open spec fn empty_report() -> ReportView {
    ReportView::Full { result_id: None, items: seq![] }
}

/// The answer with findings that are kept. A client that has them is told so.
pub open spec fn cached_report(results: ResultsView, previous: Option<Seq<char>>) -> ReportView {
    if previous == Some(results.result_id) {
        ReportView::Unchanged(results.result_id)
    } else {
        ReportView::Full { result_id: Some(results.result_id), items: results.diagnostics }
    }
}

/// The request to lint an open document. The findings are named by the checksum of its text.
pub open spec fn lint_step(doc: document::DocumentView) -> DiagnosticStepView {
    DiagnosticStepView::Lint { content: doc.content(), result_id: doc.checksum }
}

/// How a request for findings starts. Only files have findings.
pub open spec fn diagnostic_step(
    state: ServerView,
    uri: Seq<char>,
    is_file: bool,
    previous: Option<Seq<char>>,
) -> DiagnosticStepView {
    if !is_file {
        DiagnosticStepView::Reply(empty_report())
    } else if state.results.contains_key(uri) {
        DiagnosticStepView::Reply(cached_report(state.results[uri], previous))
    } else if state.docs.contains_key(uri) {
        lint_step(state.docs[uri])
    } else {
        DiagnosticStepView::ReadFile
    }
}

/// Whether a document was loaded with the given text.
pub open spec fn loaded(
    before: ServerView,
    after: ServerView,
    uri: Seq<char>,
    content: Seq<char>,
) -> bool {
    &&& after.docs[uri].holds(content)
    &&& after == (ServerView {
        docs: before.docs.insert(uri, after.docs[uri]),
        memory: before.memory.wrapping_add(after.size(uri)),
        ..before
    })
}

/// The findings of a lint run on a document that may be open.
pub open spec fn run_findings(state: ServerView, uri: Seq<char>, outcome: ToolOutcome) -> Result<
    Seq<diagnostics::DiagnosticView>,
    ToolError,
> {
    command::lint_findings(outcome, state.content(uri), uri)
}

/// What the server knows once a lint run is over: its findings, if it has a result.
pub open spec fn linted(
    state: ServerView,
    uri: Seq<char>,
    result_id: Seq<char>,
    outcome: ToolOutcome,
) -> ServerView {
    match run_findings(state, uri, outcome) {
        Ok(found) => ServerView {
            results: state.results.insert(uri, ResultsView { diagnostics: found, result_id }),
            ..state
        },
        Err(_) => state,
    }
}

/// The answer once a lint run is over.
pub open spec fn linted_report(
    state: ServerView,
    uri: Seq<char>,
    result_id: Seq<char>,
    outcome: ToolOutcome,
) -> ReportView {
    match run_findings(state, uri, outcome) {
        Ok(found) => ReportView::Full { result_id: Some(result_id), items: found },
        Err(_) => empty_report(),
    }
}

/// The answer where there is nothing to tell.
fn nothing_to_report() -> (r: Report)
    ensures
        r@ == empty_report(),
{
    let r: Report = Report::Full { result_id: None, items: Vec::new() };
    assert(r@->items =~= seq![]);
    r
}

impl PhpcsLanguageServer {
    /// The coding standard where it is the path of a file, which may have gone since.
    pub fn standard_file(&self) -> (r: Option<&str>)
        ensures
            text::optional(r) == match self@.standard {
                Some(s) => if command::is_file(s) {
                    Some(s)
                } else {
                    None
                },
                None => None,
            },
    {
        match &self.standard {
            Some(s) => if command::looks_like_file(s) {
                Some(s.as_str())
            } else {
                None
            },
            None => None,
        }
    }

    /// The command line for linting. Where the coding standard is a file that has gone, it is left
    /// out this time, and the standard is taken from the configuration files that are there.
    pub fn prepare_lint(
        &mut self,
        tool_path: &str,
        is_windows: bool,
        standard_exists: bool,
        config_paths: &Vec<Option<String>>,
        stdin_path: Option<&str>,
    ) -> (r: PreparedLint)
        requires
            old(self).wf(),
        ensures
            final(self).wf(),
            text::optional_string(r.standard) == command::effective_standard(
                old(self)@.standard,
                standard_exists,
            ),
            command::runs_tool(
                r.command@,
                tool_path@,
                is_windows,
                command::phpcs_args(
                    command::effective_standard(old(self)@.standard, standard_exists),
                    text::optional(stdin_path),
                ),
            ),
            final(self)@ == recovered(
                old(self)@,
                standard_exists,
                config::optional_texts(config_paths@),
            ),
    {
        let standard: Option<String> = text::own_optional(
            command::standard_to_use(self.standard(), standard_exists),
        );
        let args: Vec<String> = command::phpcs_arguments(
            text::borrow_optional(&standard),
            stdin_path,
        );
        if self.standard_file().is_some() && !standard_exists {
            self.discover_standard(config_paths);
        }
        PreparedLint { command: command::build_tool_command(tool_path, is_windows, args), standard }
    }

    /// A lint run with the given coding standard is over. Where the standard does not work, another
    /// one is taken from the configuration files that are there, and the run is worth another try.
    pub fn recover_configuration(
        &mut self,
        used: Option<&str>,
        outcome: &ToolOutcome,
        config_paths: &Vec<Option<String>>,
    ) -> (again: bool)
        requires
            old(self).wf(),
        ensures
            final(self).wf(),
            again == standard_failed(old(self)@, text::optional(used), *outcome),
            final(self)@ == reconfigured(
                old(self)@,
                text::optional(used),
                *outcome,
                config::optional_texts(config_paths@),
            ),
    {
        let failed: &str = match used {
            Some(standard) => standard,
            None => return false,
        };
        let in_force: bool = match &self.standard {
            Some(standard) => text::same_text(standard, failed),
            None => false,
        };
        if in_force && command::is_config_error(outcome) {
            self.standard = config::find_fallback(config_paths, failed);
            true
        } else {
            false
        }
    }

    /// The command line for fixing, all that is found or what one sniff finds.
    pub fn prepare_fix(
        &self,
        tool_path: &str,
        is_windows: bool,
        standard_exists: bool,
        sniff: Option<&str>,
        stdin_path: Option<&str>,
    ) -> (r: ToolCommand)
        ensures
            command::runs_tool(
                r@,
                tool_path@,
                is_windows,
                command::phpcbf_args(
                    command::effective_standard(self@.standard, standard_exists),
                    text::optional(sniff),
                    text::optional(stdin_path),
                ),
            ),
    {
        let args: Vec<String> = command::phpcbf_arguments(
            command::standard_to_use(self.standard(), standard_exists),
            sniff,
            stdin_path,
        );
        command::build_tool_command(tool_path, is_windows, args)
    }

    /// The finding for a message about a document that may be open.
    pub fn convert_message_to_diagnostic(&self, message: &Json, uri: &str) -> (r: Option<Diagnostic>)
        requires
            self.wf(),
        ensures
            match r {
                Some(d) => diagnostics::diagnostic_of(
                    message@,
                    diagnostics::known_lines(self@.content(uri@)),
                    uri@,
                ) == Some(d@),
                None => diagnostics::diagnostic_of(
                    message@,
                    diagnostics::known_lines(self@.content(uri@)),
                    uri@,
                ) is None,
            },
    {
        let content: Option<String> = self.document_content(uri);
        diagnostics::convert_message(message, text::borrow_optional(&content), uri)
    }

    /// The findings in what linting printed about a document that may be open.
    pub fn parse_phpcs_output(&self, output: &str, uri: &str) -> (r: Vec<Diagnostic>)
        requires
            self.wf(),
        ensures
            diagnostics::diagnostics_view(r@) == diagnostics::findings_of_output(
                output@,
                self@.content(uri@),
                uri@,
            ),
    {
        let content: Option<String> = self.document_content(uri);
        diagnostics::diagnostics_of_output(output, text::borrow_optional(&content), uri)
    }

    /// A client asks for the findings for a document. It may name those that it has.
    pub fn diagnostic(&self, uri: &str, is_file: bool, previous_result_id: Option<&str>) -> (r:
        DiagnosticStep)
        requires
            self.wf(),
        ensures
            r@ == diagnostic_step(self@, uri@, is_file, text::optional(previous_result_id)),
    {
        if !is_file {
            return DiagnosticStep::Reply(nothing_to_report());
        }
        if let Some(cached) = self.results_cache.get(uri) {
            if let Some(previous) = previous_result_id {
                if text::same_text(previous, &cached.result_id) {
                    return DiagnosticStep::Reply(Report::Unchanged(cached.result_id.clone()));
                }
            }
            return DiagnosticStep::Reply(
                Report::Full {
                    result_id: Some(cached.result_id.clone()),
                    items: diagnostics::duplicate_all(&cached.diagnostics),
                },
            );
        }
        match self.open_docs.get(uri) {
            Some(doc) => Self::lint_document(doc),
            None => DiagnosticStep::ReadFile,
        }
    }

    /// The request to lint a document.
    fn lint_document(doc: &CompressedDocument) -> (r: DiagnosticStep)
        ensures
            r@ == lint_step(doc@),
    {
        match doc.decompress_document() {
            Ok(content) => DiagnosticStep::Lint { content, result_id: doc.checksum().to_string() },
            Err(_) => DiagnosticStep::Reply(nothing_to_report()),
        }
    }

    /// The file of a document that is not open was read, if it could be. The document is kept from
    /// now on.
    pub fn diagnostic_loaded(&mut self, uri: &str, file_content: Option<&str>) -> (r: DiagnosticStep)
        requires
            old(self).wf(),
            file_content matches Some(s) ==> document::storable(s@),
        ensures
            final(self).wf(),
            match file_content {
                Some(s) => {
                    &&& loaded(old(self)@, final(self)@, uri@, s@)
                    &&& r@ == lint_step(final(self)@.docs[uri@])
                },
                None => {
                    &&& final(self)@ == old(self)@
                    &&& r@ == DiagnosticStepView::Reply(empty_report())
                },
            },
    {
        match file_content {
            Some(content) => {
                self.store(uri, content);
                match self.open_docs.get(uri) {
                    Some(doc) => Self::lint_document(doc),
                    None => DiagnosticStep::Reply(nothing_to_report()),
                }
            },
            None => DiagnosticStep::Reply(nothing_to_report()),
        }
    }

    /// A lint run is over. Its findings are kept under the given name, if it has a result.
    pub fn diagnostic_linted(&mut self, uri: &str, result_id: &str, outcome: &ToolOutcome) -> (r:
        Report)
        requires
            old(self).wf(),
        ensures
            final(self).wf(),
            final(self)@ == linted(old(self)@, uri@, result_id@, *outcome),
            r@ == linted_report(old(self)@, uri@, result_id@, *outcome),
    {
        let content: Option<String> = self.document_content(uri);
        match command::diagnostics_of_run(outcome, text::borrow_optional(&content), uri) {
            Ok(found) => {
                let kept: CachedResults = CachedResults {
                    diagnostics: diagnostics::duplicate_all(&found),
                    result_id: result_id.to_string(),
                };
                self.results_cache.insert(uri, kept);
                Report::Full { result_id: Some(result_id.to_string()), items: found }
            },
            Err(_) => nothing_to_report(),
        }
    }
}

/// How a request for actions goes on.
#[derive(Debug)]
pub enum ActionStep {
    /// There is nothing to offer.
    Done,
    /// The text has to be fixed as a whole.
    FixAll { content: String },
    /// The fixer has to run on the text, once for each of the runs.
    Offer { content: String, runs: Vec<FixRun> },
}

/// How a request for actions goes on.
#[verifier::ext_equal]
pub enum ActionStepView {
    Done,
    FixAll { content: Seq<char> },
    Offer { content: Seq<char>, runs: Seq<actions::FixRunView> },
}

impl View for ActionStep {
    type V = ActionStepView;

    open spec fn view(&self) -> ActionStepView {
        match self {
            ActionStep::Done => ActionStepView::Done,
            ActionStep::FixAll { content } => ActionStepView::FixAll { content: content@ },
            ActionStep::Offer { content, runs } => ActionStepView::Offer {
                content: content@,
                runs: actions::runs_view(runs@),
            },
        }
    }
}

/// Whether a document was fixed as a whole only just now.
pub open spec fn cooling(state: ServerView, uri: Seq<char>, now: u64) -> bool {
    state.cooldown.contains_key(uri) && now < state.cooldown[uri] + actions::COOLDOWN
}

/// Whether one of some findings can be fixed.
pub open spec fn any_fixable(found: Seq<diagnostics::DiagnosticView>) -> bool {
    exists|i: int| 0 <= i < found.len() && (#[trigger] found[i]).fixable
}

/// Whether one of the findings that are kept for a document can be fixed.
pub open spec fn has_fixable(state: ServerView, uri: Seq<char>) -> bool {
    state.results.contains_key(uri) && any_fixable(state.results[uri].diagnostics)
}

/// How a request for actions starts. A document that is not open has none. One that was fixed as a
/// whole only just now is not fixed again. Single fixes are offered only where something can be
/// fixed in the document.
pub open spec fn action_step(
    state: ServerView,
    uri: Seq<char>,
    kinds: Option<Seq<Seq<char>>>,
    found: Seq<actions::CursorView>,
    now: u64,
) -> ActionStepView {
    match state.content(uri) {
        None => ActionStepView::Done,
        Some(content) => if actions::asks_fix_all(kinds) {
            if cooling(state, uri, now) {
                ActionStepView::Done
            } else {
                ActionStepView::FixAll { content }
            }
        } else if has_fixable(state, uri) {
            ActionStepView::Offer { content, runs: actions::all_runs(found) }
        } else {
            ActionStepView::Done
        },
    }
}

/// What the server knows once a document was fixed as a whole: when that was, if it changed the
/// document.
pub open spec fn fixed_all(
    state: ServerView,
    uri: Seq<char>,
    content: Seq<char>,
    fixed: Option<Seq<char>>,
    now: u64,
) -> ServerView {
    if fixed is Some && fixed->0 != content {
        ServerView { cooldown: state.cooldown.insert(uri, now), ..state }
    } else {
        state
    }
}

impl PhpcsLanguageServer {
    /// Whether one of the findings that are kept for a document can be fixed.
    pub fn file_has_fixable(&self, uri: &str) -> (r: bool)
        requires
            self.wf(),
        ensures
            r == has_fixable(self@, uri@),
    {
        match self.results_cache.get(uri) {
            Some(cached) => {
                let ghost found = diagnostics::diagnostics_view(cached.diagnostics@);
                let mut i: usize = 0;
                while i < cached.diagnostics.len()
                    invariant
                        i <= cached.diagnostics@.len(),
                        found == diagnostics::diagnostics_view(cached.diagnostics@),
                        self@.results.contains_key(uri@),
                        self@.results[uri@].diagnostics == found,
                        forall|j: int| 0 <= j < i ==> !(#[trigger] found[j]).fixable,
                    decreases cached.diagnostics@.len() - i,
                {
                    assert(found[i as int] == cached.diagnostics@[i as int]@);
                    if cached.diagnostics[i].data.fixable {
                        return true;
                    }
                    i += 1;
                }
                false
            },
            None => false,
        }
    }

    /// A client asks for actions on a document, of some kinds, for some findings. The time is that
    /// since the server started, in nanoseconds.
    pub fn code_action(
        &self,
        uri: &str,
        kinds: &Option<Vec<String>>,
        found: &Vec<CursorDiagnostic>,
        now: u64,
    ) -> (r: ActionStep)
        requires
            self.wf(),
        ensures
            r@ == action_step(
                self@,
                uri@,
                actions::kinds_view(*kinds),
                actions::cursor_view(found@),
                now,
            ),
    {
        let content: String = match self.document_content(uri) {
            Some(content) => content,
            None => return ActionStep::Done,
        };
        if actions::is_fix_all_request(kinds) {
            if let Some(sent) = self.fix_all_cooldown.get(uri) {
                if now.saturating_sub(*sent) < actions::COOLDOWN {
                    return ActionStep::Done;
                }
            }
            return ActionStep::FixAll { content };
        }
        if !self.file_has_fixable(uri) {
            return ActionStep::Done;
        }
        ActionStep::Offer { content, runs: actions::plan_runs(found) }
    }

    /// The fixer ran on the text of a document as a whole. The time is that since the server
    /// started, in nanoseconds.
    pub fn fix_all_done(
        &mut self,
        uri: &str,
        content: &str,
        result: &Result<String, ToolError>,
        now: u64,
    ) -> (r: Vec<CodeAction>)
        requires
            old(self).wf(),
        ensures
            final(self).wf(),
            actions::actions_view(r@) == actions::fix_all_actions(
                content@,
                actions::fixed_text(*result),
            ),
            final(self)@ == fixed_all(
                old(self)@,
                uri@,
                content@,
                actions::fixed_text(*result),
                now,
            ),
    {
        let offered: Vec<CodeAction> = actions::offer_fix_all(content, result);
        assert(actions::actions_view(offered@).len() == offered@.len());
        if offered.len() > 0 {
            self.fix_all_cooldown.insert(uri, now);
        }
        offered
    }
}

} // verus!
