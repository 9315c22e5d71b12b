//! The PHP tools: where they are found and how they are started.
use crate::text;
use vstd::prelude::*;

verus! {

/// A tool of PHP_CodeSniffer.
#[derive(Debug, Clone, Copy, PartialEq, Eq, Structural)]
pub enum PhpTool {
    Phpcs,
    Phpcbf,
}

/// What a tool is called as a command.
pub open spec fn tool_name(tool: PhpTool) -> Seq<char> {
    match tool {
        PhpTool::Phpcs => "phpcs"@,
        PhpTool::Phpcbf => "phpcbf"@,
    }
}

impl PhpTool {
    /// What the tool is called as a command.
    pub fn name(&self) -> (r: &'static str)
        ensures
            r@ == tool_name(*self),
    {
        match self {
            PhpTool::Phpcs => "phpcs",
            PhpTool::Phpcbf => "phpcbf",
        }
    }

    /// What the tool is called in messages.
    pub fn display_name(&self) -> (r: &'static str)
        ensures
            r@ == match *self {
                PhpTool::Phpcs => "PHPCS"@,
                PhpTool::Phpcbf => "PHPCBF"@,
            },
    {
        match self {
            PhpTool::Phpcs => "PHPCS",
            PhpTool::Phpcbf => "PHPCBF",
        }
    }

    /// Where Composer puts the tool in a project.
    pub fn vendor_bin(&self) -> (r: &'static str)
        ensures
            r@ == match *self {
                PhpTool::Phpcs => "vendor/bin/phpcs"@,
                PhpTool::Phpcbf => "vendor/bin/phpcbf"@,
            },
    {
        match self {
            PhpTool::Phpcs => "vendor/bin/phpcs",
            PhpTool::Phpcbf => "vendor/bin/phpcbf",
        }
    }

    /// The file of the tool that comes with the server.
    pub fn phar_name(&self) -> (r: &'static str)
        ensures
            r@ == match *self {
                PhpTool::Phpcs => "phpcs.phar"@,
                PhpTool::Phpcbf => "phpcbf.phar"@,
            },
    {
        match self {
            PhpTool::Phpcs => "phpcs.phar",
            PhpTool::Phpcbf => "phpcbf.phar",
        }
    }

    /// The environment variable that may name the tool's path.
    pub fn env_var_name(&self) -> (r: &'static str)
        ensures
            r@ == match *self {
                PhpTool::Phpcs => "PHPCS_PATH"@,
                PhpTool::Phpcbf => "PHPCBF_PATH"@,
            },
    {
        match self {
            PhpTool::Phpcs => "PHPCS_PATH",
            PhpTool::Phpcbf => "PHPCBF_PATH",
        }
    }
}

/// A place where a tool may be found.
#[derive(Debug, Clone, Copy, PartialEq, Eq, Structural)]
pub enum Place {
    /// The project's own installation.
    VendorBin,
    /// The path that an environment variable names.
    Environment,
    /// A command of the system.
    System,
    /// The file that comes with the server.
    Bundled,
}

/// How the search for a tool goes on.
#[derive(Debug)]
pub enum DetectStep {
    /// The tool's path is known.
    Found(String),
    /// The next place has to be looked up.
    Look(Place),
}

/// How the search for a tool goes on.
pub enum DetectView {
    Found(Seq<char>),
    Look(Place),
}

impl View for DetectStep {
    type V = DetectView;

    open spec fn view(&self) -> DetectView {
        match self {
            DetectStep::Found(path) => DetectView::Found(path@),
            DetectStep::Look(place) => DetectView::Look(*place),
        }
    }
}

/// Whether a path is given that is not blank.
pub open spec fn given(path: Option<Seq<char>>) -> bool {
    path is Some && !text::blank(path->0)
}

/// How the search starts: with the path that the user has set, if it is not blank.
pub open spec fn first_step(user_path: Option<Seq<char>>) -> DetectView {
    if given(user_path) {
        DetectView::Found(user_path->0)
    } else {
        DetectView::Look(Place::VendorBin)
    }
}

/// How the search goes on once a place was looked up: with the tool's path there, or with nothing.
/// A blank path in the environment counts as nothing. A command of the system is started by its
/// name, and so is the tool where no place has it.
pub open spec fn next_step(tool: PhpTool, place: Place, answer: Option<Seq<char>>) -> DetectView {
    match place {
        Place::VendorBin => match answer {
            Some(path) => DetectView::Found(path),
            None => DetectView::Look(Place::Environment),
        },
        Place::Environment => if given(answer) {
            DetectView::Found(answer->0)
        } else {
            DetectView::Look(Place::System)
        },
        Place::System => match answer {
            Some(_) => DetectView::Found(tool_name(tool)),
            None => DetectView::Look(Place::Bundled),
        },
        Place::Bundled => match answer {
            Some(path) => DetectView::Found(path),
            None => DetectView::Found(tool_name(tool)),
        },
    }
}

/// Starts the search for a tool.
pub fn detect_start(user_path: Option<&str>) -> (r: DetectStep)
    ensures
        r@ == first_step(text::optional(user_path)),
{
    match user_path {
        Some(path) => if !text::is_blank(path) {
            DetectStep::Found(path.to_string())
        } else {
            DetectStep::Look(Place::VendorBin)
        },
        None => DetectStep::Look(Place::VendorBin),
    }
}

/// Goes on with the search for a tool once a place was looked up.
pub fn detect_next(tool: PhpTool, place: Place, answer: Option<&str>) -> (r: DetectStep)
    ensures
        r@ == next_step(tool, place, text::optional(answer)),
{
    match (place, answer) {
        (Place::VendorBin, Some(path)) => DetectStep::Found(path.to_string()),
        (Place::VendorBin, None) => DetectStep::Look(Place::Environment),
        (Place::Environment, Some(path)) => if !text::is_blank(path) {
            DetectStep::Found(path.to_string())
        } else {
            DetectStep::Look(Place::System)
        },
        (Place::Environment, None) => DetectStep::Look(Place::System),
        (Place::System, Some(_)) => DetectStep::Found(tool.name().to_string()),
        (Place::System, None) => DetectStep::Look(Place::Bundled),
        (Place::Bundled, Some(path)) => DetectStep::Found(path.to_string()),
        (Place::Bundled, None) => DetectStep::Found(tool.name().to_string()),
    }
}

/// What is known of the places where a tool may be found: its path where the place has it.
#[derive(Debug)]
pub struct Places<'a> {
    pub vendor_bin: Option<&'a str>,
    pub environment: Option<&'a str>,
    pub system: Option<&'a str>,
    pub bundled: Option<&'a str>,
}

/// The path of a tool. The path that the user has set comes first, after it the project's own
/// installation, the environment, a command of the system, and the file that comes with the
/// server. Where there is none of them it is the tool's name.
pub open spec fn detected(tool: PhpTool, user_path: Option<Seq<char>>, places: Places) -> Seq<
    char,
> {
    if given(user_path) {
        user_path->0
    } else if places.vendor_bin is Some {
        places.vendor_bin->0@
    } else if given(text::optional(places.environment)) {
        places.environment->0@
    } else if places.system is None && places.bundled is Some {
        places.bundled->0@
    } else {
        tool_name(tool)
    }
}

/// The path of a tool, given what is known of the places where it may be found.
pub fn detect_tool_path(tool: PhpTool, user_path: Option<&str>, places: &Places) -> (r: String)
    ensures
        r@ == detected(tool, text::optional(user_path), *places),
{
    let mut step: DetectStep = detect_start(user_path);
    let mut left: u8 = 4;
    loop
        invariant
            step@ matches DetectView::Found(path) ==> path == detected(
                tool,
                text::optional(user_path),
                *places,
            ),
            step@ matches DetectView::Look(place) ==> {
                &&& !given(text::optional(user_path))
                &&& place is VendorBin || places.vendor_bin is None
                &&& place is VendorBin || place is Environment || !given(
                    text::optional(places.environment),
                )
                &&& place is Bundled ==> places.system is None
                &&& left == match place {
                    Place::VendorBin => 4u8,
                    Place::Environment => 3u8,
                    Place::System => 2u8,
                    Place::Bundled => 1u8,
                }
            },
        decreases left,
    {
        match step {
            DetectStep::Found(path) => {
                return path;
            },
            DetectStep::Look(place) => {
                let answer: Option<&str> = match place {
                    Place::VendorBin => places.vendor_bin,
                    Place::Environment => places.environment,
                    Place::System => places.system,
                    Place::Bundled => places.bundled,
                };
                step = detect_next(tool, place, answer);
                left -= 1;
            },
        }
    }
}

/// The search for a tool asks for no place after it has found the tool, asks for the places in
/// their order, and ends after the last one, whatever it is told.
pub proof fn law_search_ends(tool: PhpTool, place: Place, answer: Option<Seq<char>>)
    ensures
        match (place, next_step(tool, place, answer)) {
            (_, DetectView::Found(_)) => true,
            (Place::VendorBin, DetectView::Look(next)) => next is Environment,
            (Place::Environment, DetectView::Look(next)) => next is System,
            (Place::System, DetectView::Look(next)) => next is Bundled,
            (Place::Bundled, DetectView::Look(_)) => false,
        },
{
}

/// A path that the user has set always takes effect, wherever else the tool is found.
pub proof fn law_user_path_wins(tool: PhpTool, user_path: Seq<char>, places: Places)
    requires
        !text::blank(user_path),
    ensures
        detected(tool, Some(user_path), places) == user_path,
        first_step(Some(user_path)) == DetectView::Found(user_path),
{
}

/// A blank path that the user has set is as good as none.
pub proof fn law_blank_user_path_is_ignored(tool: PhpTool, user_path: Seq<char>, places: Places)
    requires
        text::blank(user_path),
    ensures
        detected(tool, Some(user_path), places) == detected(tool, None, places),
{
}

/// The project's own installation comes before all but the path that the user has set.
pub proof fn law_vendor_bin_comes_second(tool: PhpTool, places: Places)
    requires
        places.vendor_bin is Some,
    ensures
        detected(tool, None, places) == places.vendor_bin->0@,
{
}

/// How a tool is started: the program, and the arguments before the tool's own.
#[derive(Debug, PartialEq, Eq)]
pub struct SpawnPlan {
    pub program: String,
    pub prefix_args: Vec<String>,
}

impl Clone for SpawnPlan {
    fn clone(&self) -> (r: SpawnPlan)
        ensures
            r@ == self@,
    {
        SpawnPlan {
            program: self.program.clone(),
            prefix_args: text::copy_texts(&self.prefix_args),
        }
    }
}

/// What a plan holds.
#[verifier::ext_equal]
pub struct SpawnView {
    pub program: Seq<char>,
    pub prefix_args: Seq<Seq<char>>,
}

impl View for SpawnPlan {
    type V = SpawnView;

    open spec fn view(&self) -> SpawnView {
        SpawnView { program: self.program@, prefix_args: text::texts(self.prefix_args@) }
    }
}

/// Whether a character parts the names in a path, on some system.
pub open spec fn separator(c: char) -> bool {
    c == '/' || c == '\\'
}

/// Where the last character of some kind stands; -1 where there is none.
pub open spec fn last_index(s: Seq<char>, kind: spec_fn(char) -> bool) -> int
    decreases s.len(),
{
    if s.len() == 0 {
        -1
    } else if kind(s.last()) {
        s.len() - 1
    } else {
        last_index(s.drop_last(), kind)
    }
}

/// Whether a path without separators may start with a drive.
pub open spec fn on_drive(path: Seq<char>) -> bool {
    path.len() >= 2 && path[1] == ':' && last_index(path, |c: char| separator(c)) < 0
}

/// Where the last name of a path starts: after its last separator, or after its drive.
pub open spec fn name_start(path: Seq<char>) -> int {
    if on_drive(path) {
        2
    } else {
        last_index(path, |c: char| separator(c)) + 1
    }
}

/// The last name of a path.
pub open spec fn last_name(path: Seq<char>) -> Seq<char> {
    path.skip(name_start(path))
}

/// Where the last dot of a name stands; -1 where there is none.
pub open spec fn last_dot(name: Seq<char>) -> int {
    last_index(name, |c: char| c == '.')
}

/// Whether a path starts with two separators, after which systems differ in what they see.
pub open spec fn doubly_rooted(path: Seq<char>) -> bool {
    path.len() >= 2 && separator(path[0]) && separator(path[1])
}

/// Where the first separator from `n` on stands; the length of the path where there is none.
pub open spec fn first_separator(path: Seq<char>, n: int) -> int
    decreases path.len() - n,
{
    if n >= path.len() {
        path.len() as int
    } else if separator(path[n]) {
        n
    } else {
        first_separator(path, n + 1)
    }
}

/// Whether a path that starts with two separators names a server and a share.
pub open spec fn names_share(path: Seq<char>) -> bool {
    let server_end = first_separator(path, 2);
    &&& doubly_rooted(path) && path.len() > 2
    &&& !separator(path[2]) && path[2] != '?' && path[2] != '.'
    &&& server_end + 1 < path.len() && !separator(path[server_end + 1])
}

/// Where the names of a server and a share end.
pub open spec fn share_end(path: Seq<char>) -> int {
    first_separator(path, first_separator(path, 2) + 1)
}

/// A path whose last name means the same on every system: one that has such a name, where it is not
/// taken for a server or a share.
pub open spec fn ordinary(path: Seq<char>) -> bool {
    let name = last_name(path);
    &&& name.len() > 0
    &&& !(forall|i: int| 0 <= i < name.len() ==> #[trigger] name[i] == '.')
    &&& doubly_rooted(path) ==> names_share(path) && share_end(path) < path.len()
}

/// How a system reads paths.
#[derive(Debug, Clone, Copy, PartialEq, Eq, Structural)]
pub enum PathStyle {
    /// Only the slash parts names.
    Slash,
    /// The backslash parts names too.
    Backslash,
    /// The backslash parts names too, and a drive or a share may stand before them.
    Windows,
}

/// Whether a character parts the names in a path.
pub open spec fn parts_names(style: PathStyle, c: char) -> bool {
    c == '/' || (c == '\\' && !(style is Slash))
}

/// Whether a character names a drive.
pub open spec fn drive_letter(c: char) -> bool {
    'A' <= c <= 'Z' || 'a' <= c <= 'z'
}

/// Where the drive or share before the names of a path ends.
pub open spec fn prefix_end(style: PathStyle, path: Seq<char>) -> int {
    if !(style is Windows) {
        0
    } else if doubly_rooted(path) {
        share_end(path)
    } else if path.len() >= 2 && drive_letter(path[0]) && path[1] == ':' {
        2
    } else {
        0
    }
}

/// Where the last name of the first `n` characters of a path ends: separators behind it, and dots
/// that stand for the directory itself, do not count.
pub open spec fn file_name_end(style: PathStyle, path: Seq<char>, n: int) -> int
    decreases n,
{
    let base = prefix_end(style, path);
    if n <= base || n <= 0 {
        n
    } else if parts_names(style, path[n - 1]) || (path[n - 1] == '.' && n - 2 >= base && parts_names(
        style,
        path[n - 2],
    )) {
        file_name_end(style, path, n - 1)
    } else {
        n
    }
}

/// Where the last name of the first `n` characters of a path starts.
pub open spec fn file_name_start(style: PathStyle, path: Seq<char>, n: int) -> int
    decreases n,
{
    if n <= prefix_end(style, path) || n <= 0 || parts_names(style, path[n - 1]) {
        n
    } else {
        file_name_start(style, path, n - 1)
    }
}

/// The last name of a path.
pub open spec fn file_name(style: PathStyle, path: Seq<char>) -> Seq<char> {
    let end = file_name_end(style, path, path.len() as int);
    path.subrange(file_name_start(style, path, end), end)
}

/// The extension of a path: what follows the last dot of its last name, if something stands before
/// that dot and the name is not that of the directory above.
pub open spec fn extension_in(style: PathStyle, path: Seq<char>) -> Option<Seq<char>> {
    let name = file_name(style, path);
    let dot = last_dot(name);
    if dot <= 0 || name == seq!['.', '.'] {
        None
    } else {
        Some(name.skip(dot + 1))
    }
}

/// Whether a path starts in a way that Windows keeps for devices and for paths that it takes
/// literally, or names no share behind a server.
pub open spec fn special(style: PathStyle, path: Seq<char>) -> bool {
    style is Windows && doubly_rooted(path) && !names_share(path)
}

/// Whether a text is what follows some dot of a path, up to separators and dots at the end.
pub open spec fn follows_dot(path: Seq<char>, e: Seq<char>) -> bool {
    &&& !e.contains('.')
    &&& exists|at: int|
        {
            &&& 0 < at <= path.len() - e.len()
            &&& path[at - 1] == '.'
            &&& #[trigger] path.subrange(at, at + e.len()) == e
            &&& forall|i: int|
                at + e.len() <= i < path.len() ==> separator(#[trigger] path[i]) || path[i] == '.'
        }
}

/// Whether a path has the given extension on a system that reads paths in the given way. Of paths
/// that start in a special way less is known.
pub open spec fn has_extension(
    style: PathStyle,
    path: Seq<char>,
    extension: Option<Seq<char>>,
) -> bool {
    if special(style, path) {
        extension matches Some(e) ==> follows_dot(path, e)
    } else {
        extension == extension_in(style, path)
    }
}

/// Whether a path has the given extension on some system.
pub open spec fn extension_of(path: Seq<char>, extension: Option<Seq<char>>) -> bool {
    exists|style: PathStyle| #[trigger] has_extension(style, path, extension)
}

/// `std::path::Path::extension` gives the part of a path's file name after its last dot, and
/// nothing where the path has no file name or the name has no dot after its first character.
/// Separators at the end of a path and names of one dot do not count. Which characters part the
/// names, and whether a drive or a share may stand before them, depends on the system, so the
/// contract says that the extension is the one on some system.
#[verifier::external_body]
fn path_extension(path: &str) -> (r: Option<String>)
    ensures
        extension_of(path@, text::optional_string(r)),
{
    std::path::Path::new(path).extension().and_then(|e| e.to_str()).map(|e| e.to_string())
}

/// A plan that starts the tool itself.
pub open spec fn direct(path: Seq<char>) -> SpawnView {
    SpawnView { program: path, prefix_args: seq![] }
}

/// A plan that has the command interpreter of Windows start the tool.
pub open spec fn via_cmd(path: Seq<char>) -> SpawnView {
    SpawnView { program: "cmd"@, prefix_args: seq!["/C"@, path] }
}

/// A plan that has PHP run the tool.
pub open spec fn via_php(path: Seq<char>) -> SpawnView {
    SpawnView { program: "php"@, prefix_args: seq![path] }
}

/// How a tool is started, given the extension of its path. Windows starts only programs itself:
/// batch files go through its command interpreter, other files through PHP, and a bare name
/// through the command interpreter, which looks it up.
pub open spec fn spawn_plan(
    path: Seq<char>,
    extension: Option<Seq<char>>,
    is_windows: bool,
) -> SpawnView {
    let lower = match extension {
        Some(e) => Some(text::ascii_lowercase(e)),
        None => None,
    };
    if !is_windows || lower == Some("exe"@) {
        direct(path)
    } else if lower == Some("bat"@) || lower == Some("cmd"@) {
        via_cmd(path)
    } else if path.contains('/') || path.contains('\\') {
        via_php(path)
    } else {
        via_cmd(path)
    }
}

fn has_separator(path: &str) -> (r: bool)
    ensures
        r == (path@.contains('/') || path@.contains('\\')),
{
    let chars: Vec<char> = text::chars_of(path);
    let mut i: usize = 0;
    while i < chars.len()
        invariant
            i <= chars@.len(),
            chars@ == path@,
            forall|j: int| 0 <= j < i ==> !separator(#[trigger] chars@[j]),
        decreases chars@.len() - i,
    {
        if chars[i] == '/' || chars[i] == '\\' {
            assert(path@[i as int] == chars@[i as int]);
            return true;
        }
        i += 1;
    }
    false
}

fn plan_cmd(path: &str) -> (r: SpawnPlan)
    ensures
        r@ == via_cmd(path@),
{
    let mut prefix_args: Vec<String> = Vec::new();
    prefix_args.push("/C".to_string());
    prefix_args.push(path.to_string());
    let r: SpawnPlan = SpawnPlan { program: "cmd".to_string(), prefix_args };
    assert(r@ =~~= via_cmd(path@));
    r
}

/// How a tool is started, given the extension of its path.
pub fn plan_spawn_by_extension(tool_path: &str, extension: Option<&str>, is_windows: bool) -> (r:
    SpawnPlan)
    ensures
        r@ == spawn_plan(tool_path@, text::optional(extension), is_windows),
{
    let mut run_itself: bool = !is_windows;
    let mut batch: bool = false;
    if let Some(e) = extension {
        let lower: String = text::to_ascii_lower(e);
        if text::same_text(&lower, "exe") {
            run_itself = true;
        }
        batch = text::same_text(&lower, "bat") || text::same_text(&lower, "cmd");
    }
    if run_itself {
        let r: SpawnPlan = SpawnPlan { program: tool_path.to_string(), prefix_args: Vec::new() };
        assert(r@ =~~= direct(tool_path@));
        r
    } else if batch || !has_separator(tool_path) {
        plan_cmd(tool_path)
    } else {
        let mut prefix_args: Vec<String> = Vec::new();
        prefix_args.push(tool_path.to_string());
        let r: SpawnPlan = SpawnPlan { program: "php".to_string(), prefix_args };
        assert(r@ =~~= via_php(tool_path@));
        r
    }
}

/// How a tool is started.
pub fn plan_spawn(tool_path: &str, is_windows: bool) -> (r: SpawnPlan)
    ensures
        exists|extension: Option<Seq<char>>| #[trigger]
            extension_of(tool_path@, extension) && r@ == spawn_plan(
                tool_path@,
                extension,
                is_windows,
            ),
{
    let extension: Option<String> = path_extension(tool_path);
    plan_spawn_by_extension(tool_path, text::borrow_optional(&extension), is_windows)
}

proof fn lemma_last_index(s: Seq<char>, kind: spec_fn(char) -> bool)
    ensures
        -1 <= last_index(s, kind) < s.len(),
        last_index(s, kind) >= 0 ==> kind(s[last_index(s, kind)]),
        forall|i: int| last_index(s, kind) < i < s.len() ==> !kind(#[trigger] s[i]),
    decreases s.len(),
{
    if s.len() > 0 && !kind(s.last()) {
        let front = s.drop_last();
        lemma_last_index(front, kind);
        assert(forall|i: int| 0 <= i < front.len() ==> front[i] == #[trigger] s[i]);
    }
}

proof fn lemma_first_separator(path: Seq<char>, n: int)
    requires
        0 <= n <= path.len(),
    ensures
        n <= first_separator(path, n) <= path.len(),
        first_separator(path, n) < path.len() ==> separator(path[first_separator(path, n)]),
    decreases path.len() - n,
{
    if n < path.len() && !separator(path[n]) {
        lemma_first_separator(path, n + 1);
    }
}

proof fn lemma_prefix_end(style: PathStyle, path: Seq<char>)
    requires
        !special(style, path),
    ensures
        0 <= prefix_end(style, path) <= path.len(),
{
    if style is Windows && doubly_rooted(path) {
        lemma_first_separator(path, 2);
        lemma_first_separator(path, first_separator(path, 2) + 1);
    }
}

proof fn lemma_file_name_end(style: PathStyle, path: Seq<char>, n: int)
    requires
        !special(style, path),
        prefix_end(style, path) <= n <= path.len(),
    ensures
        prefix_end(style, path) <= file_name_end(style, path, n) <= n,
    decreases n,
{
    lemma_prefix_end(style, path);
    if n > prefix_end(style, path) {
        lemma_file_name_end(style, path, n - 1);
    }
}

proof fn lemma_file_name_start(style: PathStyle, path: Seq<char>, n: int)
    requires
        !special(style, path),
        prefix_end(style, path) <= n <= path.len(),
    ensures
        ({
            let start = file_name_start(style, path, n);
            &&& prefix_end(style, path) <= start <= n
            &&& start == prefix_end(style, path) || parts_names(style, path[start - 1])
            &&& forall|i: int| start <= i < n ==> !parts_names(style, #[trigger] path[i])
        }),
    decreases n,
{
    lemma_prefix_end(style, path);
    if n > prefix_end(style, path) && !parts_names(style, path[n - 1]) {
        lemma_file_name_start(style, path, n - 1);
    }
}

/// What is known of the extension of an ordinary path, whatever the system.
proof fn lemma_ordinary_extension(path: Seq<char>, extension: Option<Seq<char>>)
    requires
        ordinary(path),
        extension_of(path, extension),
    ensures
        ({
            let name = last_name(path);
            let dot = last_dot(name);
            &&& dot > 0 ==> extension == Some(name.skip(dot + 1))
            &&& dot < 0 ==> extension is None || extension->0.contains('\\')
            &&& dot == 0 && !path.contains('\\') && !on_drive(path) ==> extension is None
        }),
{
    let style = choose|style: PathStyle| #[trigger] has_extension(style, path, extension);
    let len = path.len() as int;
    let base = prefix_end(style, path);
    let begin = name_start(path);
    let name = last_name(path);
    let dot = last_dot(name);
    lemma_prefix_end(style, path);
    lemma_last_index(path, |c: char| separator(c));
    lemma_last_index(name, |c: char| c == '.');
    assert(forall|i: int| begin <= i < len ==> !separator(#[trigger] path[i]));
    assert(forall|i: int| 0 <= i < name.len() ==> #[trigger] name[i] == path[begin + i]);
    if style is Windows && doubly_rooted(path) {
        lemma_first_separator(path, 2);
        lemma_first_separator(path, first_separator(path, 2) + 1);
        assert(separator(path[share_end(path)]));
    }
    assert(base <= begin);
    let solid = choose|i: int| 0 <= i < name.len() && #[trigger] name[i] != '.';
    assert(file_name_end(style, path, len) == len) by {
        assert(!separator(path[len - 1]));
        if path[len - 1] == '.' && len - 2 >= base && parts_names(style, path[len - 2]) {
            assert(separator(path[len - 2]));
            assert(begin == len - 1);
            assert(name[solid] == path[len - 1]);
        }
    }
    let start = file_name_start(style, path, len);
    lemma_file_name_start(style, path, len);
    if start > begin {
        assert(!separator(path[start - 1]));
    }
    let file = file_name(style, path);
    let k = begin - start;
    assert(forall|i: int| 0 <= i < file.len() ==> #[trigger] file[i] == path[start + i]);
    lemma_last_index(file, |c: char| c == '.');
    let found = last_dot(file);
    assert(file[k + solid] != '.');
    if dot >= 0 {
        assert(file[k + dot] == '.');
        assert(found == k + dot) by {
            if found > k + dot {
                assert(name[found - k] == '.');
            }
        }
        if dot > 0 {
            assert(file.skip(found + 1) =~= name.skip(dot + 1));
        } else if !path.contains('\\') && !on_drive(path) && start < begin {
            assert(!parts_names(style, path[begin - 1]));
            assert(separator(path[begin - 1]));
        }
    } else {
        if found >= k {
            assert(name[found - k] == '.');
        }
        if found > 0 {
            assert(file[k - 1] == path[begin - 1]);
            assert(!parts_names(style, path[begin - 1]));
            if on_drive(path) {
                assert(path[begin - 1] == ':');
                assert(start == base);
                assert(file[found] == path[start + found]);
            } else {
                assert(separator(path[begin - 1]));
                let e = file.skip(found + 1);
                assert(e[k - 1 - (found + 1)] == '\\');
            }
        }
    }
}

/// Outside Windows a tool is always started itself.
pub proof fn law_unix_starts_directly(path: Seq<char>, extension: Option<Seq<char>>)
    ensures
        spawn_plan(path, extension, false) == direct(path),
{
}

/// Windows starts a program itself, a batch file through its command interpreter and any other
/// file through PHP, by the extension in whatever case.
pub proof fn law_windows_goes_by_extension(path: Seq<char>, extension: Option<Seq<char>>)
    requires
        ordinary(path),
        last_dot(last_name(path)) > 0,
        extension_of(path, extension),
    ensures
        ({
            let name = last_name(path);
            let lower = text::ascii_lowercase(name.skip(last_dot(name) + 1));
            let plan = spawn_plan(path, extension, true);
            &&& lower == "exe"@ ==> plan == direct(path)
            &&& lower == "bat"@ || lower == "cmd"@ ==> plan == via_cmd(path)
            &&& lower != "exe"@ && lower != "bat"@ && lower != "cmd"@ && (path.contains('/')
                || path.contains('\\')) ==> plan == via_php(path)
        }),
{
    lemma_ordinary_extension(path, extension);
    reveal_strlit("exe");
    reveal_strlit("bat");
    reveal_strlit("cmd");
    assert("exe"@[0] != "bat"@[0]);
    assert("exe"@[0] != "cmd"@[0]);
}

/// What reaches over a backslash is not the extension of a program or a batch file.
proof fn lemma_backslash_is_no_program(e: Seq<char>)
    requires
        e.contains('\\'),
    ensures
        text::ascii_lowercase(e) != "exe"@,
        text::ascii_lowercase(e) != "bat"@,
        text::ascii_lowercase(e) != "cmd"@,
{
    let i = choose|i: int| 0 <= i < e.len() && e[i] == '\\';
    let lower = text::ascii_lowercase(e);
    reveal_strlit("exe");
    reveal_strlit("bat");
    reveal_strlit("cmd");
    assert(lower[i] == '\\');
    assert(forall|j: int| 0 <= j < "exe"@.len() ==> "exe"@[j] != '\\');
    assert(forall|j: int| 0 <= j < "bat"@.len() ==> "bat"@[j] != '\\');
    assert(forall|j: int| 0 <= j < "cmd"@.len() ==> "cmd"@[j] != '\\');
}

/// Windows runs a file without an extension through PHP.
pub proof fn law_windows_runs_scripts_through_php(path: Seq<char>, extension: Option<Seq<char>>)
    requires
        ordinary(path),
        last_dot(last_name(path)) < 0,
        path.contains('/') || path.contains('\\'),
        extension_of(path, extension),
    ensures
        spawn_plan(path, extension, true) == via_php(path),
{
    lemma_ordinary_extension(path, extension);
    if extension is Some {
        lemma_backslash_is_no_program(extension->0);
    }
}

/// Windows has its command interpreter look up a bare name.
pub proof fn law_windows_looks_up_bare_names(path: Seq<char>, extension: Option<Seq<char>>)
    requires
        !path.contains('/'),
        !path.contains('\\'),
        !path.contains('.'),
        extension_of(path, extension),
    ensures
        spawn_plan(path, extension, true) == via_cmd(path),
{
    let style = choose|style: PathStyle| #[trigger] has_extension(style, path, extension);
    if doubly_rooted(path) {
        assert(path.contains(path[0]));
    }
    let name = file_name(style, path);
    lemma_file_name_end(style, path, path.len() as int);
    lemma_file_name_start(style, path, file_name_end(style, path, path.len() as int));
    lemma_last_index(name, |c: char| c == '.');
    if last_dot(name) >= 0 {
        assert(path.contains(name[last_dot(name)]));
    }
}

/// Whatever the plan, it is the tool's path that is run: as the program itself or as the last
/// argument before the tool's own.
pub proof fn law_plan_runs_the_tool(
    path: Seq<char>,
    extension: Option<Seq<char>>,
    is_windows: bool,
)
    ensures
        ({
            let plan = spawn_plan(path, extension, is_windows);
            ||| plan.program == path && plan.prefix_args.len() == 0
            ||| plan.prefix_args.len() > 0 && plan.prefix_args.last() == path
        }),
{
}

/// Whether two texts are the same up to the case of ASCII letters.
pub open spec fn same_but_case(a: Seq<char>, b: Seq<char>) -> bool {
    text::ascii_lowercase(a) == text::ascii_lowercase(b)
}

/// Whether what is known of the extension of a path decides how the tool is started.
pub open spec fn settled(path: Seq<char>) -> bool {
    let dot = last_dot(last_name(path));
    &&& ordinary(path)
    &&& dot == 0 ==> !path.contains('\\') && !on_drive(path)
}

proof fn lemma_same_chars(a: Seq<char>, b: Seq<char>)
    requires
        same_but_case(a, b),
    ensures
        a.len() == b.len(),
        forall|i: int| #![trigger a[i]] #![trigger b[i]]
            0 <= i < a.len() ==> text::ascii_lower(a[i]) == text::ascii_lower(b[i]) && separator(a[i])
                == separator(b[i]) && (a[i] == '.') == (b[i] == '.') && (a[i] == ':') == (b[i]
                == ':') && (a[i] == '?') == (b[i] == '?') && (a[i] == '\\') == (b[i] == '\\') && (
            a[i] == '/') == (b[i] == '/') && drive_letter(a[i]) == drive_letter(b[i]),
{
    assert(text::ascii_lowercase(a).len() == a.len());
    assert(text::ascii_lowercase(b).len() == b.len());
    assert forall|i: int| #![trigger a[i]] #![trigger b[i]] 0 <= i < a.len() implies text::ascii_lower(
        a[i],
    ) == text::ascii_lower(b[i]) && separator(a[i]) == separator(b[i]) && (a[i] == '.') == (b[i]
        == '.') && (a[i] == ':') == (b[i] == ':') && (a[i] == '?') == (b[i] == '?') && (a[i]
        == '\\') == (b[i] == '\\') && (a[i] == '/') == (b[i] == '/') && drive_letter(a[i])
        == drive_letter(b[i]) by {
        assert(text::ascii_lowercase(a)[i] == text::ascii_lower(a[i]));
        assert(text::ascii_lowercase(b)[i] == text::ascii_lower(b[i]));
    }
}

proof fn lemma_same_last_index(a: Seq<char>, b: Seq<char>, kind: spec_fn(char) -> bool)
    requires
        a.len() == b.len(),
        forall|i: int| #![trigger a[i]] 0 <= i < a.len() ==> kind(a[i]) == kind(b[i]),
    ensures
        last_index(a, kind) == last_index(b, kind),
        -1 <= last_index(a, kind) < a.len(),
    decreases a.len(),
{
    if a.len() > 0 {
        lemma_same_last_index(a.drop_last(), b.drop_last(), kind);
    }
}

proof fn lemma_same_contains(a: Seq<char>, b: Seq<char>, c: char)
    requires
        a.len() == b.len(),
        forall|i: int| #![trigger a[i]] 0 <= i < a.len() ==> (a[i] == c) == (b[i] == c),
    ensures
        a.contains(c) == b.contains(c),
{
    if a.contains(c) {
        let i = choose|i: int| 0 <= i < a.len() && a[i] == c;
        assert(b[i] == c);
    }
    if b.contains(c) {
        let i = choose|i: int| 0 <= i < b.len() && b[i] == c;
        assert(a[i] == c);
    }
}

proof fn lemma_same_first_separator(a: Seq<char>, b: Seq<char>, n: int)
    requires
        same_but_case(a, b),
        0 <= n,
    ensures
        first_separator(a, n) == first_separator(b, n),
    decreases a.len() - n,
{
    lemma_same_chars(a, b);
    if n < a.len() {
        assert(separator(a[n]) == separator(b[n]));
        lemma_same_first_separator(a, b, n + 1);
    }
}

proof fn lemma_same_share(a: Seq<char>, b: Seq<char>)
    requires
        same_but_case(a, b),
    ensures
        doubly_rooted(a) == doubly_rooted(b),
        names_share(a) == names_share(b),
        share_end(a) == share_end(b),
{
    lemma_same_chars(a, b);
    if a.len() >= 2 {
        assert(separator(a[0]) == separator(b[0]) && separator(a[1]) == separator(b[1]));
        lemma_first_separator(a, 2);
    }
    lemma_same_first_separator(a, b, 2);
    let server_end = first_separator(a, 2);
    if server_end >= 0 {
        lemma_same_first_separator(a, b, server_end + 1);
    }
    if a.len() > 2 {
        assert(separator(a[2]) == separator(b[2]) && (a[2] == '?') == (b[2] == '?'));
        if server_end + 1 < a.len() {
            assert(separator(a[server_end + 1]) == separator(b[server_end + 1]));
        }
    }
}

proof fn lemma_same_file_name(style: PathStyle, a: Seq<char>, b: Seq<char>, n: int)
    requires
        same_but_case(a, b),
        n <= a.len(),
    ensures
        prefix_end(style, a) == prefix_end(style, b),
        file_name_end(style, a, n) == file_name_end(style, b, n),
        file_name_start(style, a, n) == file_name_start(style, b, n),
    decreases n,
{
    lemma_same_chars(a, b);
    lemma_same_share(a, b);
    if a.len() >= 2 {
        assert((a[1] == ':') == (b[1] == ':') && drive_letter(a[0]) == drive_letter(b[0]));
    }
    if n > 0 {
        lemma_same_file_name(style, a, b, n - 1);
        assert(parts_names(style, a[n - 1]) == parts_names(style, b[n - 1]));
        if n > 1 {
            assert(parts_names(style, a[n - 2]) == parts_names(style, b[n - 2]));
        }
    }
}

/// The extension of one path, in lower case, is that of another which differs only in case, as far
/// as it decides anything.
proof fn lemma_same_extension(
    p: Seq<char>,
    q: Seq<char>,
    e: Option<Seq<char>>,
    f: Option<Seq<char>>,
)
    requires
        same_but_case(p, q),
        settled(p),
        extension_of(p, e),
        extension_of(q, f),
    ensures
        p.contains('/') == q.contains('/'),
        p.contains('\\') == q.contains('\\'),
        ({
            ||| e is Some && f is Some && text::ascii_lowercase(e->0) == text::ascii_lowercase(f->0)
            ||| (e is None || e->0.contains('\\')) && (f is None || f->0.contains('\\'))
        }),
{
    lemma_same_chars(p, q);
    lemma_same_last_index(p, q, |c: char| separator(c));
    lemma_same_contains(p, q, '/');
    lemma_same_contains(p, q, '\\');
    let start = name_start(p);
    assert(name_start(q) == start);
    let name = last_name(p);
    let other = last_name(q);
    assert(forall|i: int| 0 <= i < name.len() ==> #[trigger] name[i] == p[start + i]);
    assert(forall|i: int| 0 <= i < other.len() ==> #[trigger] other[i] == q[start + i]);
    lemma_same_last_index(name, other, |c: char| c == '.');
    let dot = last_dot(name);
    lemma_ordinary_extension(p, e);
    assert(ordinary(q)) by {
        let k = choose|k: int| 0 <= k < name.len() && name[k] != '.';
        assert(p[start + k] != '.');
        assert(other[k] != '.');
        if doubly_rooted(q) {
            assert(separator(p[0]) && separator(p[1]));
            lemma_same_share(p, q);
        }
    }
    lemma_ordinary_extension(q, f);
    if dot > 0 {
        let x = name.skip(dot + 1);
        let y = other.skip(dot + 1);
        assert forall|i: int| 0 <= i < x.len() implies text::ascii_lower(#[trigger] x[i])
            == text::ascii_lower(y[i]) by {
            assert(x[i] == p[start + dot + 1 + i]);
            assert(y[i] == q[start + dot + 1 + i]);
        }
        assert(text::ascii_lowercase(x) =~= text::ascii_lowercase(y));
    }
}

/// The case of letters never changes how a tool is started, even from one system to another: two
/// paths that mean the same on every system and differ only in case go the same way, each with its
/// own letters.
pub proof fn law_case_keeps_the_route_everywhere(
    p: Seq<char>,
    q: Seq<char>,
    e: Option<Seq<char>>,
    f: Option<Seq<char>>,
    is_windows: bool,
)
    requires
        same_but_case(p, q),
        is_windows ==> settled(p),
        extension_of(p, e),
        extension_of(q, f),
    ensures
        spawn_plan(p, e, is_windows).prefix_args.len() == spawn_plan(
            q,
            f,
            is_windows,
        ).prefix_args.len(),
        spawn_plan(p, e, is_windows) == direct(p) <==> spawn_plan(q, f, is_windows) == direct(q),
        spawn_plan(p, e, is_windows) == via_cmd(p) <==> spawn_plan(q, f, is_windows) == via_cmd(q),
        spawn_plan(p, e, is_windows) == via_php(p) <==> spawn_plan(q, f, is_windows) == via_php(q),
{
    assert(direct(p).prefix_args.len() == 0 && direct(q).prefix_args.len() == 0);
    assert(via_php(p).prefix_args.len() == 1 && via_php(q).prefix_args.len() == 1);
    assert(via_cmd(p).prefix_args.len() == 2 && via_cmd(q).prefix_args.len() == 2);
    if is_windows {
        lemma_same_extension(p, q, e, f);
        if e is Some && e->0.contains('\\') {
            lemma_backslash_is_no_program(e->0);
        }
        if f is Some && f->0.contains('\\') {
            lemma_backslash_is_no_program(f->0);
        }
    }
}

/// The case of letters never changes how a tool is started: two paths that differ only in it go the
/// same way on any one system, each with its own letters. What Windows keeps for devices and takes
/// literally is left out there.
pub proof fn law_case_never_changes_the_route(
    style: PathStyle,
    p: Seq<char>,
    q: Seq<char>,
    e: Option<Seq<char>>,
    f: Option<Seq<char>>,
    is_windows: bool,
)
    requires
        same_but_case(p, q),
        is_windows ==> !special(style, p),
        has_extension(style, p, e),
        has_extension(style, q, f),
    ensures
        spawn_plan(p, e, is_windows).prefix_args.len() == spawn_plan(
            q,
            f,
            is_windows,
        ).prefix_args.len(),
        spawn_plan(p, e, is_windows) == direct(p) <==> spawn_plan(q, f, is_windows) == direct(q),
        spawn_plan(p, e, is_windows) == via_cmd(p) <==> spawn_plan(q, f, is_windows) == via_cmd(q),
        spawn_plan(p, e, is_windows) == via_php(p) <==> spawn_plan(q, f, is_windows) == via_php(q),
{
    assert(direct(p).prefix_args.len() == 0 && direct(q).prefix_args.len() == 0);
    assert(via_php(p).prefix_args.len() == 1 && via_php(q).prefix_args.len() == 1);
    assert(via_cmd(p).prefix_args.len() == 2 && via_cmd(q).prefix_args.len() == 2);
    if is_windows {
        lemma_same_chars(p, q);
        lemma_same_share(p, q);
        lemma_same_contains(p, q, '/');
        lemma_same_contains(p, q, '\\');
        let len = p.len() as int;
        lemma_same_file_name(style, p, q, len);
        lemma_prefix_end(style, p);
        lemma_file_name_end(style, p, len);
        let end = file_name_end(style, p, len);
        lemma_same_file_name(style, p, q, end);
        lemma_file_name_start(style, p, end);
        let start = file_name_start(style, p, end);
        let name = file_name(style, p);
        let other = file_name(style, q);
        assert(forall|i: int| 0 <= i < name.len() ==> #[trigger] name[i] == p[start + i]);
        assert(forall|i: int| 0 <= i < other.len() ==> #[trigger] other[i] == q[start + i]);
        lemma_same_last_index(name, other, |c: char| c == '.');
        assert((name == seq!['.', '.']) == (other == seq!['.', '.'])) by {
            if name == seq!['.', '.'] {
                assert(name[0] == '.' && name[1] == '.');
                assert(p[start] == '.' && p[start + 1] == '.');
                assert(other =~= seq!['.', '.']);
            }
            if other == seq!['.', '.'] {
                assert(other[0] == '.' && other[1] == '.');
                assert(q[start] == '.' && q[start + 1] == '.');
                assert(name =~= seq!['.', '.']);
            }
        }
        let dot = last_dot(name);
        if e is Some {
            let x = name.skip(dot + 1);
            let y = other.skip(dot + 1);
            assert forall|i: int| 0 <= i < x.len() implies text::ascii_lower(#[trigger] x[i])
                == text::ascii_lower(y[i]) by {
                assert(x[i] == p[start + dot + 1 + i]);
                assert(y[i] == q[start + dot + 1 + i]);
            }
            assert(text::ascii_lowercase(x) =~= text::ascii_lowercase(y));
        }
    }
}

/// What comes of the search for a tool, asked place by place.
pub open spec fn searched(tool: PhpTool, step: DetectView, places: Places, left: nat) -> Option<
    Seq<char>,
>
    decreases left,
{
    match step {
        DetectView::Found(path) => Some(path),
        DetectView::Look(place) => if left == 0 {
            None
        } else {
            let answer = match place {
                Place::VendorBin => text::optional(places.vendor_bin),
                Place::Environment => text::optional(places.environment),
                Place::System => text::optional(places.system),
                Place::Bundled => text::optional(places.bundled),
            };
            searched(tool, next_step(tool, place, answer), places, (left - 1) as nat)
        },
    }
}

/// The search, asked place by place, gives the path that all that is known of the places gives at
/// once, after four places at most.
pub proof fn law_search_finds_what_is_detected(
    tool: PhpTool,
    user_path: Option<Seq<char>>,
    places: Places,
)
    ensures
        searched(tool, first_step(user_path), places, 4) == Some(
            detected(tool, user_path, places),
        ),
{
    reveal_with_fuel(searched, 5);
}

/// Without a path that the user has set and an installation of the project, the environment counts
/// unless it is blank; after it a command of the system, by the tool's name; after it the file that
/// comes with the server; and in the end the tool's name.
pub proof fn law_places_in_order(tool: PhpTool, places: Places)
    requires
        places.vendor_bin is None,
    ensures
        places.environment is Some && !text::blank(places.environment->0@) ==> detected(
            tool,
            None,
            places,
        ) == places.environment->0@,
        places.environment is None && places.system is Some ==> detected(tool, None, places)
            == tool_name(tool),
        places.environment is None && places.system is None && places.bundled is Some ==> detected(
            tool,
            None,
            places,
        ) == places.bundled->0@,
        places.environment is None && places.system is None && places.bundled is None ==> detected(
            tool,
            None,
            places,
        ) == tool_name(tool),
        places.environment is Some && text::blank(places.environment->0@) ==> detected(
            tool,
            None,
            places,
        ) == detected(tool, None, Places { environment: None, ..places }),
{
}

/// The tools go by their own names.
pub proof fn law_tool_names()
    ensures
        tool_name(PhpTool::Phpcs) == "phpcs"@,
        tool_name(PhpTool::Phpcbf) == "phpcbf"@,
{
}

/// On Windows a path with the extension `exe` is started itself; `bat` and `cmd` go to the command
/// interpreter; anything else in a directory goes to PHP, and anything else that is a bare name to
/// the command interpreter. On other systems every path is started itself.
pub proof fn law_plan_by_extension(path: Seq<char>, extension: Option<Seq<char>>, is_windows: bool)
    ensures
        ({
            let plan = spawn_plan(path, extension, is_windows);
            let exe = extension is Some && text::ascii_lowercase(extension->0) == seq!['e', 'x', 'e'];
            let batch = extension is Some && (text::ascii_lowercase(extension->0) == seq![
                'b',
                'a',
                't',
            ] || text::ascii_lowercase(extension->0) == seq!['c', 'm', 'd']);
            let in_directory = exists|i: int|
                0 <= i < path.len() && (#[trigger] path[i] == '/' || path[i] == '\\');
            &&& !is_windows || exe ==> plan.program == path && plan.prefix_args.len() == 0
            &&& is_windows && !exe && (batch || !in_directory) ==> plan.program == "cmd"@
                && plan.prefix_args.len() == 2 && plan.prefix_args[0] == "/C"@ && plan.prefix_args[1]
                == path
            &&& is_windows && !exe && !batch && in_directory ==> plan.program == "php"@
                && plan.prefix_args.len() == 1 && plan.prefix_args[0] == path
        }),
{
    reveal_strlit("exe");
    reveal_strlit("bat");
    reveal_strlit("cmd");
    assert("exe"@ =~= seq!['e', 'x', 'e']);
    assert("bat"@ =~= seq!['b', 'a', 't']);
    assert("cmd"@ =~= seq!['c', 'm', 'd']);
    let e = seq!['e', 'x', 'e'];
    let b = seq!['b', 'a', 't'];
    let c = seq!['c', 'm', 'd'];
    assert(e[0] == 'e' && b[0] == 'b' && c[0] == 'c');
    if exists|i: int| 0 <= i < path.len() && (#[trigger] path[i] == '/' || path[i] == '\\') {
        let i = choose|i: int|
            0 <= i < path.len() && (#[trigger] path[i] == '/' || path[i] == '\\');
        assert(path.contains(path[i]));
    }
}

} // verus!
