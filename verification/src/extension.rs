//! The editor extension: which server binary it runs, what it downloads, and what it tells the
//! server when it starts it.
use crate::json::Json;
use crate::server::InitializationOptions;
use crate::text;
use vstd::prelude::*;
use vstd::string::*;

verus! {

/// An operating system that the server is built for.
#[derive(Debug, Clone, Copy, PartialEq, Eq, Structural)]
pub enum Os {
    Mac,
    Linux,
    Windows,
}

/// A kind of machine.
#[derive(Debug, Clone, Copy, PartialEq, Eq, Structural)]
pub enum Architecture {
    Aarch64,
    X86,
    X8664,
}

/// The name of the server binary for a platform.
pub open spec fn binary_name(os: Os, arch: Architecture) -> Seq<char> {
    match (os, arch) {
        (Os::Windows, Architecture::X8664) => "phpcs-lsp-server-windows-x64.exe"@,
        (Os::Windows, Architecture::Aarch64) => "phpcs-lsp-server-windows-arm64.exe"@,
        (Os::Windows, Architecture::X86) => "phpcs-lsp-server.exe"@,
        (Os::Mac, Architecture::Aarch64) => "phpcs-lsp-server-macos-arm64"@,
        (Os::Mac, Architecture::X8664) => "phpcs-lsp-server-macos-x64"@,
        (Os::Mac, Architecture::X86) => "phpcs-lsp-server"@,
        (Os::Linux, Architecture::X8664) => "phpcs-lsp-server-linux-x64"@,
        (Os::Linux, Architecture::Aarch64) => "phpcs-lsp-server-linux-arm64"@,
        (Os::Linux, Architecture::X86) => "phpcs-lsp-server"@,
    }
}

/// The name of the server binary for a platform.
pub fn get_platform_binary_name(os: Os, arch: Architecture) -> (r: &'static str)
    ensures
        r@ == binary_name(os, arch),
{
    match (os, arch) {
        (Os::Windows, Architecture::X8664) => "phpcs-lsp-server-windows-x64.exe",
        (Os::Windows, Architecture::Aarch64) => "phpcs-lsp-server-windows-arm64.exe",
        (Os::Windows, Architecture::X86) => "phpcs-lsp-server.exe",
        (Os::Mac, Architecture::Aarch64) => "phpcs-lsp-server-macos-arm64",
        (Os::Mac, Architecture::X8664) => "phpcs-lsp-server-macos-x64",
        (Os::Mac, Architecture::X86) => "phpcs-lsp-server",
        (Os::Linux, Architecture::X8664) => "phpcs-lsp-server-linux-x64",
        (Os::Linux, Architecture::Aarch64) => "phpcs-lsp-server-linux-arm64",
        (Os::Linux, Architecture::X86) => "phpcs-lsp-server",
    }
}

/// How an archive is packed.
#[derive(Debug, Clone, Copy, PartialEq, Eq, Structural)]
pub enum ArchiveKind {
    Zip,
    GzipTar,
}

/// What is downloaded: the directory it goes to, the file that it brings, where it comes from, and
/// what it is called in messages.
#[derive(Debug)]
pub struct DownloadPlan {
    pub version: String,
    pub version_dir: String,
    pub file_path: String,
    pub url: String,
    pub archive: ArchiveKind,
    pub name: String,
    pub heading: String,
}

/// What is downloaded.
#[verifier::ext_equal]
pub struct PlanView {
    pub version: Seq<char>,
    pub version_dir: Seq<char>,
    pub file_path: Seq<char>,
    pub url: Seq<char>,
    pub archive: ArchiveKind,
    pub name: Seq<char>,
    pub heading: Seq<char>,
}

impl View for DownloadPlan {
    type V = PlanView;

    open spec fn view(&self) -> PlanView {
        PlanView {
            version: self.version@,
            version_dir: self.version_dir@,
            file_path: self.file_path@,
            url: self.url@,
            archive: self.archive,
            name: self.name@,
            heading: self.heading@,
        }
    }
}

/// How archives for a system are packed.
pub open spec fn archive_kind(os: Os) -> ArchiveKind {
    match os {
        Os::Windows => ArchiveKind::Zip,
        _ => ArchiveKind::GzipTar,
    }
}

/// The end of the name of an archive.
pub open spec fn archive_extension(archive: ArchiveKind) -> Seq<char> {
    match archive {
        ArchiveKind::Zip => ".zip"@,
        ArchiveKind::GzipTar => ".tar.gz"@,
    }
}

/// The plan for a file of a release.
pub open spec fn release_plan(
    version: Seq<char>,
    file: Seq<char>,
    archive: ArchiveKind,
    name: Seq<char>,
    heading: Seq<char>,
) -> PlanView {
    PlanView {
        version,
        version_dir: "phpcs-"@ + version,
        file_path: "phpcs-"@ + version + "/"@ + file,
        url: "https://github.com/mike-bronner/zed-phpcs-lsp/releases/download/"@ + version + "/"@
            + file + archive_extension(archive),
        archive,
        name,
        heading,
    }
}

fn plan_release(version: &str, file: &str, archive: ArchiveKind, name: &str, heading: &str) -> (r:
    DownloadPlan)
    ensures
        r@ == release_plan(version@, file@, archive, name@, heading@),
{
    let version_dir: String = "phpcs-".to_string().concat(version);
    let file_path: String = "phpcs-".to_string().concat(version).concat("/").concat(file);
    let extension: &str = match archive {
        ArchiveKind::Zip => ".zip",
        ArchiveKind::GzipTar => ".tar.gz",
    };
    let url: String =
        "https://github.com/mike-bronner/zed-phpcs-lsp/releases/download/".to_string().concat(
        version,
    ).concat("/").concat(file).concat(extension);
    DownloadPlan {
        version: version.to_string(),
        version_dir,
        file_path,
        url,
        archive,
        name: name.to_string(),
        heading: heading.to_string(),
    }
}

/// The plan for the server binary.
pub fn plan_binary_download(version: &str, binary_name: &str, os: Os) -> (r: DownloadPlan)
    ensures
        r@ == release_plan(version@, binary_name@, archive_kind(os), "binary"@, "Binary"@),
{
    let archive: ArchiveKind = match os {
        Os::Windows => ArchiveKind::Zip,
        _ => ArchiveKind::GzipTar,
    };
    plan_release(version, binary_name, archive, "binary", "Binary")
}

/// The plan for a tool that comes with the server.
pub fn plan_phar_download(version: &str, phar_name: &str) -> (r: DownloadPlan)
    ensures
        r@ == release_plan(version@, phar_name@, ArchiveKind::GzipTar, phar_name@, phar_name@),
{
    plan_release(version, phar_name, ArchiveKind::GzipTar, phar_name, phar_name)
}

/// What happened during a download.
#[derive(Debug)]
pub enum DownloadEvent {
    /// Whether the file was there already.
    Looked(bool),
    /// Whether the archive came, or why not.
    Fetched(Result<(), String>),
    /// Whether the file was in the archive.
    Extracted(bool),
    /// Whether the file could be made executable, or why not.
    Permitted(Result<(), String>),
}

/// What is to be done next for a download.
#[derive(Debug)]
pub enum DownloadAction {
    /// Fetch the archive and unpack it.
    Fetch,
    /// Look whether the file was in it.
    Look,
    /// Make the file executable.
    Permit,
    /// Nothing: the file is there, or it cannot be had.
    Finish(Result<String, String>),
}

/// What is to be done next for a download.
pub enum DownloadActionView {
    Fetch,
    Look,
    Permit,
    Finish(Result<Seq<char>, Seq<char>>),
}

impl View for DownloadAction {
    type V = DownloadActionView;

    open spec fn view(&self) -> DownloadActionView {
        match self {
            DownloadAction::Fetch => DownloadActionView::Fetch,
            DownloadAction::Look => DownloadActionView::Look,
            DownloadAction::Permit => DownloadActionView::Permit,
            DownloadAction::Finish(Ok(path)) => DownloadActionView::Finish(Ok(path@)),
            DownloadAction::Finish(Err(e)) => DownloadActionView::Finish(Err(e@)),
        }
    }
}

/// What is to be done after an event of a download.
pub open spec fn download_step(plan: PlanView, event: DownloadEvent) -> DownloadActionView {
    match event {
        DownloadEvent::Looked(true) => DownloadActionView::Finish(Ok(plan.file_path)),
        DownloadEvent::Looked(false) => DownloadActionView::Fetch,
        DownloadEvent::Fetched(Ok(())) => DownloadActionView::Look,
        DownloadEvent::Fetched(Err(e)) => DownloadActionView::Finish(
            Err(
                "Failed to download "@ + plan.name + " from release: "@ + e@
                    + ". Please ensure the release "@ + plan.version + " exists with assets."@,
            ),
        ),
        DownloadEvent::Extracted(true) => DownloadActionView::Permit,
        DownloadEvent::Extracted(false) => DownloadActionView::Finish(
            Err(plan.heading + " not found after extraction. Expected at: "@ + plan.file_path),
        ),
        DownloadEvent::Permitted(Ok(())) => DownloadActionView::Finish(Ok(plan.file_path)),
        DownloadEvent::Permitted(Err(e)) => DownloadActionView::Finish(
            Err("Failed to set "@ + plan.name + " permissions: "@ + e@),
        ),
    }
}

/// What is to be done after an event of a download. The first event is whether the file is there.
pub fn download_next(plan: &DownloadPlan, event: &DownloadEvent) -> (r: DownloadAction)
    ensures
        r@ == download_step(plan@, *event),
{
    match event {
        DownloadEvent::Looked(true) => DownloadAction::Finish(Ok(plan.file_path.clone())),
        DownloadEvent::Looked(false) => DownloadAction::Fetch,
        DownloadEvent::Fetched(Ok(())) => DownloadAction::Look,
        DownloadEvent::Fetched(Err(e)) => {
            let message: String = "Failed to download ".to_string().concat(&plan.name).concat(
                " from release: ",
            ).concat(e).concat(". Please ensure the release ").concat(&plan.version).concat(
                " exists with assets.",
            );
            DownloadAction::Finish(Err(message))
        },
        DownloadEvent::Extracted(true) => DownloadAction::Permit,
        DownloadEvent::Extracted(false) => {
            let message: String = plan.heading.clone().concat(
                " not found after extraction. Expected at: ",
            ).concat(&plan.file_path);
            DownloadAction::Finish(Err(message))
        },
        DownloadEvent::Permitted(Ok(())) => DownloadAction::Finish(Ok(plan.file_path.clone())),
        DownloadEvent::Permitted(Err(e)) => {
            let message: String = "Failed to set ".to_string().concat(&plan.name).concat(
                " permissions: ",
            ).concat(e);
            DownloadAction::Finish(Err(message))
        },
    }
}

/// The extension's knowledge of the server binary.
#[derive(Debug)]
pub struct PhpcsLspServer {
    pub cached_binary_path: Option<String>,
}

/// How the search for the server binary goes on.
#[derive(Debug)]
pub enum BinaryStep {
    /// The binary is there.
    Use(String),
    /// A command of the given name has to be looked up.
    LookUp(String),
    /// The binary has to be downloaded.
    Download,
}

/// How the search for the server binary goes on.
pub enum BinaryView {
    Use(Seq<char>),
    LookUp(Seq<char>),
    Download,
}

impl View for BinaryStep {
    type V = BinaryView;

    open spec fn view(&self) -> BinaryView {
        match self {
            BinaryStep::Use(path) => BinaryView::Use(path@),
            BinaryStep::LookUp(name) => BinaryView::LookUp(name@),
            BinaryStep::Download => BinaryView::Download,
        }
    }
}

impl PhpcsLspServer {
    /// An extension that knows of no binary yet.
    pub fn new() -> (r: PhpcsLspServer)
        ensures
            r.cached_binary_path is None,
    {
        PhpcsLspServer { cached_binary_path: None }
    }

    /// Starts the search for the server binary: the one that was found before is used again if it
    /// is still there.
    pub fn language_server_binary_path(
        &self,
        cached_exists: bool,
        os: Os,
        arch: Architecture,
    ) -> (r: BinaryStep)
        ensures
            r@ == match self.cached_binary_path {
                Some(path) if cached_exists => BinaryView::Use(path@),
                _ => BinaryView::LookUp(binary_name(os, arch)),
            },
    {
        match &self.cached_binary_path {
            Some(path) if cached_exists => BinaryStep::Use(path.clone()),
            _ => BinaryStep::LookUp(get_platform_binary_name(os, arch).to_string()),
        }
    }

    /// Goes on once the command was looked up.
    pub fn binary_looked_up(&mut self, found: Option<&str>) -> (r: BinaryStep)
        ensures
            match found {
                Some(path) => {
                    &&& r@ == BinaryView::Use(path@)
                    &&& text::optional_string(final(self).cached_binary_path) == Some(path@)
                },
                None => {
                    &&& r@ == BinaryView::Download
                    &&& *final(self) == *old(self)
                },
            },
    {
        match found {
            Some(path) => {
                self.cached_binary_path = Some(path.to_string());
                BinaryStep::Use(path.to_string())
            },
            None => BinaryStep::Download,
        }
    }

    /// Goes on once the binary was downloaded, or could not be.
    pub fn binary_downloaded(&mut self, result: Result<String, String>) -> (r: Result<
        String,
        String,
    >)
        ensures
            match result {
                Ok(path) => {
                    &&& r matches Ok(p) && p@ == path@
                    &&& text::optional_string(final(self).cached_binary_path) == Some(path@)
                },
                Err(e) => r == Err::<String, String>(e) && *final(self) == *old(self),
            },
    {
        match result {
            Ok(path) => {
                self.cached_binary_path = Some(path.clone());
                Ok(path)
            },
            Err(e) => Err(e),
        }
    }
}

/// Whether a server is this one, by its name in the editor's settings.
pub open spec fn is_our_server(id: Seq<char>) -> bool {
    id == "phpcs"@
}

/// Refuses to start a server that is not this one.
pub fn check_language_server(id: &str) -> (r: Result<(), String>)
    ensures
        match r {
            Ok(()) => is_our_server(id@),
            Err(e) => !is_our_server(id@) && e@ == "unknown language server: "@ + id@,
        },
{
    if text::same_text(id, "phpcs") {
        Ok(())
    } else {
        Err("unknown language server: ".to_string().concat(id))
    }
}

/// A text that is not blank.
pub open spec fn unless_blank(s: Option<Seq<char>>) -> Option<Seq<char>> {
    match s {
        Some(s) => if text::blank(s) {
            None
        } else {
            Some(s)
        },
        None => None,
    }
}

fn drop_blank(s: Option<&str>) -> (r: Option<String>)
    ensures
        text::optional_string(r) == unless_blank(text::optional(s)),
{
    match s {
        Some(s) => if text::is_blank(s) {
            None
        } else {
            Some(s.to_string())
        },
        None => None,
    }
}

/// The texts in a list that are not blank, with commas between them; nothing where there is none.
pub open spec fn joined_texts(items: Seq<crate::json::JsonView>) -> Option<Seq<char>>
    decreases items.len(),
{
    if items.len() == 0 {
        None
    } else {
        let before = joined_texts(items.drop_last());
        match unless_blank(items.last().text()) {
            Some(s) => match before {
                Some(b) => Some(b + ","@ + s),
                None => Some(s),
            },
            None => before,
        }
    }
}

fn join_texts(items: &Vec<Json>) -> (r: Option<String>)
    ensures
        text::optional_string(r) == joined_texts(items@.map_values(|j: Json| j@)),
{
    let ghost all = items@.map_values(|j: Json| j@);
    let mut joined: Option<String> = None;
    let mut i: usize = 0;
    while i < items.len()
        invariant
            i <= items@.len(),
            all == items@.map_values(|j: Json| j@),
            text::optional_string(joined) == joined_texts(all.take(i as int)),
        decreases items@.len() - i,
    {
        assert(all.take(i + 1).drop_last() =~= all.take(i as int));
        assert(all.take(i + 1).last() == items@[i as int]@);
        if let Some(s) = drop_blank(items[i].as_text()) {
            joined = match joined {
                Some(b) => Some(b.concat(",").concat(&s)),
                None => Some(s),
            };
        }
        i += 1;
    }
    assert(all.take(i as int) =~= all);
    joined
}

/// The coding standard that settings name: one, or several in a list.
pub open spec fn settings_standard(settings: Option<crate::json::JsonView>) -> Option<Seq<char>> {
    match settings {
        Some(settings) => match settings.get("standard"@) {
            Some(crate::json::JsonView::Text(s)) => unless_blank(Some(s)),
            Some(crate::json::JsonView::Array(items)) => joined_texts(items),
            _ => None,
        },
        None => None,
    }
}

/// A path that settings name.
pub open spec fn settings_path(settings: Option<crate::json::JsonView>, name: Seq<char>) -> Option<
    Seq<char>,
> {
    match settings {
        Some(settings) => unless_blank(settings.text_member(name)),
        None => None,
    }
}

/// The coding standard that the server is told to use: a configuration file of the project, or
/// what the settings name, or what the environment names.
pub open spec fn chosen_standard(
    config: Option<Seq<char>>,
    settings: Option<crate::json::JsonView>,
    environment: Option<Seq<char>>,
) -> Option<Seq<char>> {
    if config is Some {
        config
    } else if settings_standard(settings) is Some {
        settings_standard(settings)
    } else {
        unless_blank(environment)
    }
}

/// What the server is told when it is started.
#[verifier::ext_equal]
pub struct OptionsView {
    pub standard: Option<Seq<char>>,
    pub phpcs_path: Option<Seq<char>>,
    pub phpcbf_path: Option<Seq<char>>,
}

/// What options hold.
pub open spec fn options_view(o: InitializationOptions) -> OptionsView {
    OptionsView {
        standard: text::optional_string(o.standard),
        phpcs_path: text::optional_string(o.phpcs_path),
        phpcbf_path: text::optional_string(o.phpcbf_path),
    }
}

/// What the server is told when it is started; nothing where there is nothing to tell, and nothing
/// to a server that is not this one.
pub open spec fn startup_options(
    id: Seq<char>,
    settings: Option<crate::json::JsonView>,
    config: Option<Seq<char>>,
    environment: Option<Seq<char>>,
) -> Option<OptionsView> {
    let options = OptionsView {
        standard: chosen_standard(config, settings, environment),
        phpcs_path: settings_path(settings, "phpcs_path"@),
        phpcbf_path: settings_path(settings, "phpcbf_path"@),
    };
    if !is_our_server(id) || (options.standard is None && options.phpcs_path is None
        && options.phpcbf_path is None) {
        None
    } else {
        Some(options)
    }
}

/// What optional settings hold.
pub open spec fn settings_view(settings: Option<Json>) -> Option<crate::json::JsonView> {
    match settings {
        Some(j) => Some(j@),
        None => None,
    }
}

fn find_settings_standard(settings: &Option<Json>) -> (r: Option<String>)
    ensures
        text::optional_string(r) == settings_standard(settings_view(*settings)),
{
    match settings {
        Some(settings) => match settings.get("standard") {
            Some(Json::Text(s)) => drop_blank(Some(s.as_str())),
            Some(Json::Array(items)) => {
                assert(Json::Array(*items)@->Array_0 =~= items@.map_values(|j: Json| j@));
                join_texts(items)
            },
            _ => None,
        },
        None => None,
    }
}

fn find_settings_path(settings: &Option<Json>, name: &str) -> (r: Option<String>)
    ensures
        text::optional_string(r) == settings_path(settings_view(*settings), name@),
{
    match settings {
        Some(settings) => drop_blank(settings.text_member(name)),
        None => None,
    }
}

/// What the server is told when it is started.
pub fn language_server_initialization_options(
    id: &str,
    settings: &Option<Json>,
    config: Option<&str>,
    environment: Option<&str>,
) -> (r: Option<InitializationOptions>)
    ensures
        match r {
            Some(o) => startup_options(
                id@,
                settings_view(*settings),
                text::optional(config),
                text::optional(environment),
            ) == Some(options_view(o)),
            None => startup_options(
                id@,
                settings_view(*settings),
                text::optional(config),
                text::optional(environment),
            ) is None,
        },
{
    if !text::same_text(id, "phpcs") {
        return None;
    }
    let phpcs_path: Option<String> = find_settings_path(settings, "phpcs_path");
    let phpcbf_path: Option<String> = find_settings_path(settings, "phpcbf_path");
    let standard: Option<String> = match config {
        Some(path) => Some(path.to_string()),
        None => match find_settings_standard(settings) {
            Some(s) => Some(s),
            None => drop_blank(environment),
        },
    };
    if standard.is_none() && phpcs_path.is_none() && phpcbf_path.is_none() {
        return None;
    }
    Some(InitializationOptions { standard, phpcs_path, phpcbf_path })
}

/// A configuration file of the project counts more than settings, and settings count more than the
/// environment.
pub proof fn law_standard_priority(
    config: Option<Seq<char>>,
    settings: Option<crate::json::JsonView>,
    environment: Option<Seq<char>>,
)
    ensures
        config is Some ==> chosen_standard(config, settings, environment) == config,
        config is None && settings_standard(settings) is Some ==> chosen_standard(
            config,
            settings,
            environment,
        ) == settings_standard(settings),
        config is None && settings_standard(settings) is None ==> chosen_standard(
            config,
            settings,
            environment,
        ) == unless_blank(environment),
{
}

/// A list with a text that is not blank names a standard.
pub proof fn law_listed_standard_counts(items: Seq<crate::json::JsonView>)
    ensures
        joined_texts(items) is None <==> forall|i: int|
            0 <= i < items.len() ==> unless_blank((#[trigger] items[i]).text()) is None,
    decreases items.len(),
{
    if items.len() > 0 {
        let front = items.drop_last();
        law_listed_standard_counts(front);
        assert(forall|i: int| 0 <= i < front.len() ==> front[i] == #[trigger] items[i]);
        if joined_texts(items) is Some && joined_texts(front) is Some {
            let i = choose|i: int|
                0 <= i < front.len() && unless_blank((#[trigger] front[i]).text()) is Some;
            assert(unless_blank(items[i].text()) is Some);
        } else if joined_texts(items) is Some {
            assert(unless_blank(items[items.len() - 1].text()) is Some);
        }
    }
}

/// A download that goes well ends with the file that was asked for, and one that goes wrong ends
/// at once with a reason. An event never leads back to an earlier one.
pub proof fn law_download_ends(plan: PlanView, event: DownloadEvent)
    ensures
        match event {
            DownloadEvent::Looked(_) => download_step(plan, event) is Finish || download_step(
                plan,
                event,
            ) is Fetch,
            DownloadEvent::Fetched(_) => download_step(plan, event) is Finish || download_step(
                plan,
                event,
            ) is Look,
            DownloadEvent::Extracted(_) => download_step(plan, event) is Finish || download_step(
                plan,
                event,
            ) is Permit,
            DownloadEvent::Permitted(_) => download_step(plan, event) is Finish,
        },
        download_step(plan, event) matches DownloadActionView::Finish(Ok(path)) ==> path
            == plan.file_path,
{
}

/// The file of a release lies in the directory of its version.
pub proof fn law_file_lies_in_version_dir(
    version: Seq<char>,
    file: Seq<char>,
    archive: ArchiveKind,
    name: Seq<char>,
    heading: Seq<char>,
)
    ensures
        ({
            let plan = release_plan(version, file, archive, name, heading);
            plan.file_path == plan.version_dir + "/"@ + file
        }),
{
}

/// The name of a server binary is made of its system and its machine; where the machine is another
/// one, it is the name alone. On Windows, and nowhere else, it ends in `.exe`.
pub proof fn law_binary_is_named_by_its_platform(os: Os, arch: Architecture)
    ensures
        ({
            let system = match os {
                Os::Mac => "-macos"@,
                Os::Linux => "-linux"@,
                Os::Windows => "-windows"@,
            };
            let machine = match arch {
                Architecture::Aarch64 => "-arm64"@,
                _ => "-x64"@,
            };
            let end = if os is Windows {
                ".exe"@
            } else {
                ""@
            };
            &&& arch is X86 ==> binary_name(os, arch) == "phpcs-lsp-server"@ + end
            &&& !(arch is X86) ==> binary_name(os, arch) == "phpcs-lsp-server"@ + system + machine
                + end
        }),
{
    reveal_strlit("phpcs-lsp-server-windows-x64.exe");
    reveal_strlit("phpcs-lsp-server-windows-arm64.exe");
    reveal_strlit("phpcs-lsp-server.exe");
    reveal_strlit("phpcs-lsp-server-macos-arm64");
    reveal_strlit("phpcs-lsp-server-macos-x64");
    reveal_strlit("phpcs-lsp-server-linux-x64");
    reveal_strlit("phpcs-lsp-server-linux-arm64");
    reveal_strlit("phpcs-lsp-server");
    reveal_strlit("-macos");
    reveal_strlit("-linux");
    reveal_strlit("-windows");
    reveal_strlit("-arm64");
    reveal_strlit("-x64");
    reveal_strlit(".exe");
    reveal_strlit("");
    let base = "phpcs-lsp-server"@;
    match (os, arch) {
        (Os::Windows, Architecture::X8664) => {
            assert(binary_name(os, arch) =~= base + "-windows"@ + "-x64"@ + ".exe"@);
        },
        (Os::Windows, Architecture::Aarch64) => {
            assert(binary_name(os, arch) =~= base + "-windows"@ + "-arm64"@ + ".exe"@);
        },
        (Os::Windows, Architecture::X86) => {
            assert(binary_name(os, arch) =~= base + ".exe"@);
        },
        (Os::Mac, Architecture::Aarch64) => {
            assert(binary_name(os, arch) =~= base + "-macos"@ + "-arm64"@ + ""@);
        },
        (Os::Mac, Architecture::X8664) => {
            assert(binary_name(os, arch) =~= base + "-macos"@ + "-x64"@ + ""@);
        },
        (Os::Mac, Architecture::X86) => {
            assert(binary_name(os, arch) =~= base + ""@);
        },
        (Os::Linux, Architecture::X8664) => {
            assert(binary_name(os, arch) =~= base + "-linux"@ + "-x64"@ + ""@);
        },
        (Os::Linux, Architecture::Aarch64) => {
            assert(binary_name(os, arch) =~= base + "-linux"@ + "-arm64"@ + ""@);
        },
        (Os::Linux, Architecture::X86) => {
            assert(binary_name(os, arch) =~= base + ""@);
        },
    }
}

/// A file of a release comes from the page of that release, packed as a zip file for Windows and as a
/// tar file for the other systems, and goes to the directory of that release.
pub proof fn law_file_comes_from_its_release(
    version: Seq<char>,
    file: Seq<char>,
    os: Os,
    name: Seq<char>,
    heading: Seq<char>,
)
    ensures
        ({
            let plan = release_plan(version, file, archive_kind(os), name, heading);
            let page = "https://github.com/mike-bronner/zed-phpcs-lsp/releases/download/"@ + version
                + "/"@ + file;
            &&& os is Windows ==> plan.url == page + ".zip"@ && plan.archive is Zip
            &&& !(os is Windows) ==> plan.url == page + ".tar.gz"@ && plan.archive is GzipTar
            &&& plan.version_dir == "phpcs-"@ + version
            &&& plan.file_path == plan.version_dir + "/"@ + file
            &&& plan.version == version
            &&& plan.name == name
            &&& plan.heading == heading
        }),
        ({
            let plan = release_plan(version, file, ArchiveKind::GzipTar, name, heading);
            plan.url == "https://github.com/mike-bronner/zed-phpcs-lsp/releases/download/"@ + version
                + "/"@ + file + ".tar.gz"@
        }),
{
}

/// A file that is there is used; one that is not is fetched, looked for and made executable, and only
/// what goes wrong on the way ends the download without it, with a message that says what it was.
pub proof fn law_download_takes_its_course(plan: PlanView, e: String)
    ensures
        download_step(plan, DownloadEvent::Looked(true)) == DownloadActionView::Finish(
            Ok(plan.file_path),
        ),
        download_step(plan, DownloadEvent::Looked(false)) is Fetch,
        download_step(plan, DownloadEvent::Fetched(Ok(()))) is Look,
        download_step(plan, DownloadEvent::Extracted(true)) is Permit,
        download_step(plan, DownloadEvent::Permitted(Ok(()))) == DownloadActionView::Finish(
            Ok(plan.file_path),
        ),
        download_step(plan, DownloadEvent::Fetched(Err(e))) == DownloadActionView::Finish(
            Err(
                "Failed to download "@ + plan.name + " from release: "@ + e@
                    + ". Please ensure the release "@ + plan.version + " exists with assets."@,
            ),
        ),
        download_step(plan, DownloadEvent::Extracted(false)) == DownloadActionView::Finish(
            Err(plan.heading + " not found after extraction. Expected at: "@ + plan.file_path),
        ),
        download_step(plan, DownloadEvent::Permitted(Err(e))) == DownloadActionView::Finish(
            Err("Failed to set "@ + plan.name + " permissions: "@ + e@),
        ),
{
}

/// A blank text counts as none, and any other text as itself.
pub proof fn law_blank_counts_as_none(s: Seq<char>)
    ensures
        unless_blank(Some(s)) == if text::blank(s) {
            None::<Seq<char>>
        } else {
            Some(s)
        },
        unless_blank(None) is None,
{
}

/// The standards of two lists, one after the other, are those of the first and those of the second
/// with a comma between them, and those of one list where the other names none. A list of one text
/// names that text unless it is blank, and what is no text names nothing.
pub proof fn law_listed_standards_are_joined(
    a: Seq<crate::json::JsonView>,
    b: Seq<crate::json::JsonView>,
    item: crate::json::JsonView,
)
    ensures
        match (joined_texts(a), joined_texts(b)) {
            (Some(x), Some(y)) => joined_texts(a + b) == Some(x.push(',') + y),
            (Some(x), None) => joined_texts(a + b) == Some(x),
            (None, other) => joined_texts(a + b) == other,
        },
        item matches crate::json::JsonView::Text(s) ==> joined_texts(seq![item]) == if text::blank(s) {
            None::<Seq<char>>
        } else {
            Some(s)
        },
        !(item is Text) ==> joined_texts(seq![item]) is None,
    decreases b.len(),
{
    reveal_strlit(",");
    let one = seq![item];
    assert(one.drop_last() =~= seq![]);
    assert(one.last() == item);
    assert(joined_texts(one.drop_last()) is None);
    if b.len() == 0 {
        assert(a + b =~= a);
    } else {
        law_listed_standards_are_joined(a, b.drop_last(), item);
        assert((a + b).drop_last() =~= a + b.drop_last());
        assert((a + b).last() == b.last());
        if let (Some(x), Some(y)) = (joined_texts(a), joined_texts(b)) {
            assert(joined_texts(a + b)->0 =~= x.push(',') + y);
        }
    }
}

/// Settings name a standard by a text or by a list, under one name, and by nothing else.
pub proof fn law_settings_name_a_standard(settings: crate::json::JsonView)
    ensures
        ({
            let member = settings.get("standard"@);
            let standard = settings_standard(Some(settings));
            &&& member matches Some(crate::json::JsonView::Text(s)) ==> standard == if text::blank(s) {
                None::<Seq<char>>
            } else {
                Some(s)
            }
            &&& member matches Some(crate::json::JsonView::Array(items)) ==> standard == joined_texts(
                items,
            )
            &&& member is None || !(member->0 is Text || member->0 is Array) ==> standard is None
            &&& settings_standard(None) is None
        }),
{
}

/// The server is told what is not blank: the standard that counts most, and the paths of the two tools
/// in the settings, each under its own name. It is told nothing where there is none of them, and no
/// other server is told anything.
pub proof fn law_server_is_told_what_is_set(
    id: Seq<char>,
    settings: crate::json::JsonView,
    config: Option<Seq<char>>,
    environment: Option<Seq<char>>,
)
    ensures
        ({
            let told = startup_options(id, Some(settings), config, environment);
            let phpcs = settings.text_member("phpcs_path"@);
            let phpcbf = settings.text_member("phpcbf_path"@);
            let has_phpcs = phpcs is Some && !text::blank(phpcs->0);
            let has_phpcbf = phpcbf is Some && !text::blank(phpcbf->0);
            let named = settings_standard(Some(settings));
            let has_environment = environment is Some && !text::blank(environment->0);
            &&& id != "phpcs"@ ==> told is None
            &&& id == "phpcs"@ ==> (told is Some <==> has_phpcs || has_phpcbf || config is Some
                || named is Some || has_environment)
            &&& told matches Some(o) ==> {
                &&& o.phpcs_path == if has_phpcs {
                    phpcs
                } else {
                    None
                }
                &&& o.phpcbf_path == if has_phpcbf {
                    phpcbf
                } else {
                    None
                }
                &&& config is Some ==> o.standard == config
                &&& config is None && named is Some ==> o.standard == named
                &&& config is None && named is None && has_environment ==> o.standard == environment
                &&& config is None && named is None && !has_environment ==> o.standard is None
            }
        }),
{
}

/// Without settings the server is told the standard alone.
pub proof fn law_server_is_told_the_standard(
    config: Option<Seq<char>>,
    environment: Option<Seq<char>>,
)
    ensures
        ({
            let told = startup_options("phpcs"@, None, config, environment);
            let has_environment = environment is Some && !text::blank(environment->0);
            &&& told is Some <==> config is Some || has_environment
            &&& told matches Some(o) ==> {
                &&& o.phpcs_path is None && o.phpcbf_path is None
                &&& o.standard == if config is Some {
                    config
                } else {
                    environment
                }
            }
        }),
{
}

/// Only one server is this one.
pub proof fn law_our_server_by_name(id: Seq<char>)
    ensures
        is_our_server(id) <==> id.len() == 5 && id[0] == 'p' && id[1] == 'h' && id[2] == 'p' && id[3]
            == 'c' && id[4] == 's',
{
    reveal_strlit("phpcs");
    if id.len() == 5 && id[0] == 'p' && id[1] == 'h' && id[2] == 'p' && id[3] == 'c' && id[4] == 's' {
        assert(id =~= "phpcs"@);
    }
}

} // verus!
