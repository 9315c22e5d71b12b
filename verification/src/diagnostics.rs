//! Findings: what PHP_CodeSniffer reports, turned into diagnostics for an editor.
use crate::doc_url;
use crate::json::{parse_json, Json};
use crate::range::{find_line_range, find_tag_range, find_token_range, make_range, Range};
use crate::text;
use vstd::prelude::*;
use vstd::string::*;
use vstd::utf8::*;

verus! {

/// How grave a finding is.
#[derive(Debug, Clone, Copy, PartialEq, Eq, Structural)]
pub enum Severity {
    Error,
    Warning,
    Information,
}

/// A remark beside a finding.
#[derive(Debug)]
pub struct RelatedInformation {
    pub uri: String,
    pub range: Range,
    pub message: String,
}

/// What is kept of a finding for the actions that are offered on it.
#[derive(Debug)]
pub struct DiagnosticData {
    pub fixable: bool,
    pub phpcs_source: String,
    pub phpcs_severity: Option<Json>,
}

/// A finding as an editor shows it.
#[derive(Debug)]
pub struct Diagnostic {
    pub range: Range,
    pub severity: Severity,
    pub code: Option<String>,
    pub source: String,
    pub message: String,
    pub related_information: Option<Vec<RelatedInformation>>,
    pub code_description: Option<String>,
    pub data: DiagnosticData,
}

/// What a remark is.
#[verifier::ext_equal]
pub struct RelatedView {
    pub uri: Seq<char>,
    pub range: Range,
    pub message: Seq<char>,
}

/// What a finding is.
#[verifier::ext_equal]
pub struct DiagnosticView {
    pub range: Range,
    pub severity: Severity,
    pub code: Option<Seq<char>>,
    pub source: Seq<char>,
    pub message: Seq<char>,
    pub related_information: Option<Seq<RelatedView>>,
    pub code_description: Option<Seq<char>>,
    pub fixable: bool,
    pub phpcs_source: Seq<char>,
    pub phpcs_severity: Option<crate::json::JsonView>,
}

impl View for RelatedInformation {
    type V = RelatedView;

    open spec fn view(&self) -> RelatedView {
        RelatedView { uri: self.uri@, range: self.range, message: self.message@ }
    }
}

/// What a list of remarks holds.
pub open spec fn related_view(v: Seq<RelatedInformation>) -> Seq<RelatedView> {
    v.map_values(|r: RelatedInformation| r@)
}

impl View for Diagnostic {
    type V = DiagnosticView;

    open spec fn view(&self) -> DiagnosticView {
        DiagnosticView {
            range: self.range,
            severity: self.severity,
            code: text::optional_string(self.code),
            source: self.source@,
            message: self.message@,
            related_information: match self.related_information {
                Some(v) => Some(related_view(v@)),
                None => None,
            },
            code_description: text::optional_string(self.code_description),
            fixable: self.data.fixable,
            phpcs_source: self.data.phpcs_source@,
            phpcs_severity: match self.data.phpcs_severity {
                Some(j) => Some(j@),
                None => None,
            },
        }
    }
}

/// What a list of findings holds.
pub open spec fn diagnostics_view(v: Seq<Diagnostic>) -> Seq<DiagnosticView> {
    v.map_values(|d: Diagnostic| d@)
}

impl Diagnostic {
    /// A finding that is the same.
    pub fn duplicate(&self) -> (r: Diagnostic)
        ensures
            r@ == self@,
    {
        let related_information: Option<Vec<RelatedInformation>> = match &self.related_information {
            Some(v) => {
                let mut copy: Vec<RelatedInformation> = Vec::new();
                let mut i: usize = 0;
                while i < v.len()
                    invariant
                        i <= v@.len(),
                        copy@.len() == i,
                        forall|j: int| 0 <= j < i ==> (#[trigger] copy@[j])@ == v@[j]@,
                    decreases v@.len() - i,
                {
                    copy.push(
                        RelatedInformation {
                            uri: v[i].uri.clone(),
                            range: v[i].range,
                            message: v[i].message.clone(),
                        },
                    );
                    i += 1;
                }
                assert(related_view(copy@) =~= related_view(v@));
                Some(copy)
            },
            None => None,
        };
        Diagnostic {
            range: self.range,
            severity: self.severity,
            code: text::copy_optional(&self.code),
            source: self.source.clone(),
            message: self.message.clone(),
            related_information,
            code_description: text::copy_optional(&self.code_description),
            data: DiagnosticData {
                fixable: self.data.fixable,
                phpcs_source: self.data.phpcs_source.clone(),
                phpcs_severity: match &self.data.phpcs_severity {
                    Some(j) => Some(j.duplicate()),
                    None => None,
                },
            },
        }
    }
}

/// Findings that are the same.
pub fn duplicate_all(v: &Vec<Diagnostic>) -> (r: Vec<Diagnostic>)
    ensures
        diagnostics_view(r@) == diagnostics_view(v@),
{
    let mut copy: Vec<Diagnostic> = Vec::new();
    let mut i: usize = 0;
    while i < v.len()
        invariant
            i <= v@.len(),
            copy@.len() == i,
            forall|j: int| 0 <= j < i ==> (#[trigger] copy@[j])@ == v@[j]@,
        decreases v@.len() - i,
    {
        copy.push(v[i].duplicate());
        i += 1;
    }
    assert(diagnostics_view(copy@) =~= diagnostics_view(v@));
    copy
}

/// Whether a finding is about a whole line.
pub open spec fn line_level(msg: Seq<char>, source: Seq<char>) -> bool {
    ||| text::occurs_in("Line exceeds"@, msg)
    ||| text::occurs_in("line is too long"@, msg)
    ||| text::occurs_in("Whitespace found at end of line"@, msg)
    ||| text::occurs_in("Line indented incorrectly"@, msg)
    ||| text::occurs_in("separated by a single blank line"@, msg)
    ||| text::occurs_in("blocks must be separated"@, msg)
    ||| text::occurs_in("Generic.Files.LineLength"@, source)
    ||| text::occurs_in("Generic.WhiteSpace.DisallowTabIndent"@, source)
    ||| text::occurs_in("Squiz.WhiteSpace.SuperfluousWhitespace"@, source)
    ||| text::occurs_in("PSR12.Files.FileHeader.SpacingAfterBlock"@, source)
}

/// Whether a finding is about a PHP tag.
pub open spec fn tag_level(msg: Seq<char>, source: Seq<char>) -> bool {
    ||| text::occurs_in("closing tag"@, msg)
    ||| text::occurs_in("Opening PHP tag"@, msg)
    ||| text::occurs_in("<?php"@, msg)
    ||| text::occurs_in("?>"@, msg)
    ||| text::occurs_in("PSR2.Files.ClosingTag"@, source)
    ||| text::occurs_in("PSR12.Files.OpenTag"@, source)
}

fn is_line_level(msg: &str, source: &str) -> (r: bool)
    ensures
        r == line_level(msg@, source@),
{
    text::contains_text(msg, "Line exceeds") || text::contains_text(msg, "line is too long")
        || text::contains_text(msg, "Whitespace found at end of line") || text::contains_text(
        msg,
        "Line indented incorrectly",
    ) || text::contains_text(msg, "separated by a single blank line") || text::contains_text(
        msg,
        "blocks must be separated",
    ) || text::contains_text(source, "Generic.Files.LineLength") || text::contains_text(
        source,
        "Generic.WhiteSpace.DisallowTabIndent",
    ) || text::contains_text(source, "Squiz.WhiteSpace.SuperfluousWhitespace")
        || text::contains_text(source, "PSR12.Files.FileHeader.SpacingAfterBlock")
}

fn is_tag_level(msg: &str, source: &str) -> (r: bool)
    ensures
        r == tag_level(msg@, source@),
{
    text::contains_text(msg, "closing tag") || text::contains_text(msg, "Opening PHP tag")
        || text::contains_text(msg, "<?php") || text::contains_text(msg, "?>")
        || text::contains_text(source, "PSR2.Files.ClosingTag") || text::contains_text(
        source,
        "PSR12.Files.OpenTag",
    )
}

/// A remark on the start of a document.
pub open spec fn remark(uri: Seq<char>, message: Seq<char>) -> RelatedView {
    RelatedView { uri, range: crate::range::range_on(0, 0, 0), message }
}

/// Whether a message is about the placement of braces.
pub open spec fn about_braces(msg: Seq<char>) -> bool {
    text::occurs_in("Opening brace"@, msg) || text::occurs_in("Closing brace"@, msg)
}

/// Whether a message is about the order of a namespace and its imports.
pub open spec fn about_order(msg: Seq<char>) -> bool {
    text::occurs_in("use statement"@, msg) || text::occurs_in("namespace"@, msg)
}

/// Whether a message compares what was expected with what was found.
pub open spec fn about_expectation(msg: Seq<char>) -> bool {
    &&& text::word_in("Expected"@, msg) || text::word_in("expected"@, msg)
    &&& text::word_in("Found"@, msg) || text::word_in("found"@, msg)
}

/// Whether a message reports that something is declared twice.
pub open spec fn about_duplicate(msg: Seq<char>) -> bool {
    ||| text::occurs_in("Duplicate"@, msg)
    ||| text::occurs_in("duplicate"@, msg)
    ||| text::occurs_in("already declared"@, msg)
    ||| text::occurs_in("already defined"@, msg)
}

/// A remark on the start of a document, where it applies.
pub open spec fn remark_if(applies: bool, uri: Seq<char>, message: Seq<char>) -> Seq<RelatedView> {
    if applies {
        seq![remark(uri, message)]
    } else {
        seq![]
    }
}

/// The remarks that go with a message.
pub open spec fn remarks(msg: Seq<char>, uri: Seq<char>) -> Seq<RelatedView> {
    remark_if(
        about_braces(msg),
        uri,
        "PSR-12 requires specific brace placement for control structures and declarations"@,
    ) + remark_if(
        about_order(msg),
        uri,
        "PSR-12 requires specific ordering: namespace \u{2192} use statements \u{2192} class declaration"@,
    ) + remark_if(
        about_expectation(msg),
        uri,
        "The message compares what the coding standard expects here with what it found"@,
    ) + remark_if(
        about_duplicate(msg),
        uri,
        "A name may be declared only once; it is declared in another place too"@,
    )
}

/// The remarks that go with a message, if there are any.
pub open spec fn related_of(msg: Seq<char>, uri: Seq<char>) -> Option<Seq<RelatedView>> {
    if remarks(msg, uri).len() == 0 {
        None
    } else {
        Some(remarks(msg, uri))
    }
}

/// Adds a remark on the start of a document, where it applies.
fn push_remark(related: &mut Vec<RelatedInformation>, applies: bool, uri: &str, message: &str)
    ensures
        related_view(final(related)@) == related_view(old(related)@) + remark_if(
            applies,
            uri@,
            message@,
        ),
{
    if applies {
        related.push(
            RelatedInformation {
                uri: uri.to_string(),
                range: make_range(0, 0, 0),
                message: message.to_string(),
            },
        );
    }
    assert(related_view(related@) =~= related_view(old(related)@) + remark_if(
        applies,
        uri@,
        message@,
    ));
}

/// The remarks that go with a message: on the placement of braces, on the order of a namespace and
/// its imports, on what was expected and what was found, and on duplicate declarations.
pub fn extract_related_information(msg: &str, uri: &str) -> (r: Option<Vec<RelatedInformation>>)
    ensures
        match r {
            Some(v) => related_of(msg@, uri@) == Some(related_view(v@)),
            None => related_of(msg@, uri@) is None,
        },
{
    let mut related: Vec<RelatedInformation> = Vec::new();
    assert(related_view(related@) =~= seq![]);
    push_remark(
        &mut related,
        text::contains_text(msg, "Opening brace") || text::contains_text(msg, "Closing brace"),
        uri,
        "PSR-12 requires specific brace placement for control structures and declarations",
    );
    push_remark(
        &mut related,
        text::contains_text(msg, "use statement") || text::contains_text(msg, "namespace"),
        uri,
        "PSR-12 requires specific ordering: namespace \u{2192} use statements \u{2192} class declaration",
    );
    push_remark(
        &mut related,
        (text::contains_word(msg, "Expected") || text::contains_word(msg, "expected")) && (
        text::contains_word(msg, "Found") || text::contains_word(msg, "found")),
        uri,
        "The message compares what the coding standard expects here with what it found",
    );
    push_remark(
        &mut related,
        text::contains_text(msg, "Duplicate") || text::contains_text(msg, "duplicate")
            || text::contains_text(msg, "already declared") || text::contains_text(
            msg,
            "already defined",
        ),
        uri,
        "A name may be declared only once; it is declared in another place too",
    );
    assert(related_view(related@) =~= remarks(msg@, uri@));
    assert(related_view(related@).len() == related@.len());
    if related.len() == 0 {
        None
    } else {
        Some(related)
    }
}

/// What PHP_CodeSniffer says in one message.
pub struct MessageView {
    pub line: u32,
    pub column: u32,
    pub msg: Seq<char>,
    pub kind: Seq<char>,
    pub source: Seq<char>,
    pub fixable: bool,
}

/// What a message says. Its line, column, text and type must be there; so must its source and
/// its note on whether it can be fixed, which count as empty and as no where they are of another
/// kind.
pub open spec fn message_of(m: crate::json::JsonView) -> Option<MessageView> {
    match (m.get("line"@), m.get("column"@), m.get("source"@), m.get("fixable"@)) {
        (Some(line), Some(column), Some(source), Some(fixable)) => match (
            line.natural(),
            column.natural(),
            m.text_member("message"@),
            m.text_member("type"@),
        ) {
            (Some(line), Some(column), Some(msg), Some(kind)) => Some(
                MessageView {
                    line: line as u32,
                    column: column as u32,
                    msg,
                    kind,
                    source: match source.text() {
                        Some(s) => s,
                        None => ""@,
                    },
                    fixable: fixable.truth() == Some(true),
                },
            ),
            _ => None,
        },
        _ => None,
    }
}

/// How grave a message is, by its type.
pub open spec fn severity_of(kind: Seq<char>) -> Severity {
    if kind == "ERROR"@ {
        Severity::Error
    } else if kind == "WARNING"@ {
        Severity::Warning
    } else {
        Severity::Information
    }
}

/// A number that counts from one, counted from zero.
pub open spec fn zero_based(n: u32) -> u32 {
    if n > 0 {
        (n - 1) as u32
    } else {
        0
    }
}

/// What a finding underlines: the whole line, a PHP tag or a token. Where the line is not known it
/// is the character at the column.
pub open spec fn underlined(
    lines: Option<Seq<Seq<char>>>,
    msg: Seq<char>,
    source: Seq<char>,
    line: u32,
    column: u32,
) -> Range {
    if lines is Some && line < lines->0.len() {
        let content = lines->0[line as int];
        if line_level(msg, source) {
            crate::range::whole_line_range(content, line)
        } else if tag_level(msg, source) {
            crate::range::tag_range(encode_utf8(content), line, column)
        } else {
            crate::range::token_range(content, line, column)
        }
    } else {
        crate::range::range_on(line, column, (column + 1) as u32)
    }
}

/// The mark before the message of a finding that can be fixed.
pub open spec fn fixable_mark() -> Seq<char> {
    "\u{1f6e0}\u{fe0f} "@
}

/// The finding for a message.
pub open spec fn finding(
    m: MessageView,
    severity: Option<crate::json::JsonView>,
    lines: Option<Seq<Seq<char>>>,
    uri: Seq<char>,
) -> DiagnosticView {
    DiagnosticView {
        range: underlined(lines, m.msg, m.source, zero_based(m.line), zero_based(m.column)),
        severity: severity_of(m.kind),
        code: if m.source.len() > 0 {
            Some(m.source)
        } else {
            None
        },
        source: "phpcs"@,
        message: if m.fixable {
            fixable_mark() + m.msg
        } else {
            m.msg
        },
        related_information: related_of(m.msg, uri),
        code_description: doc_url::doc_url(m.source),
        fixable: m.fixable,
        phpcs_source: m.source,
        phpcs_severity: severity,
    }
}

/// The finding for a message, if the message is complete.
pub open spec fn diagnostic_of(
    m: crate::json::JsonView,
    lines: Option<Seq<Seq<char>>>,
    uri: Seq<char>,
) -> Option<DiagnosticView> {
    match message_of(m) {
        Some(message) => Some(finding(message, m.get("severity"@), lines, uri)),
        None => None,
    }
}

/// The lines of a document, if its text is known.
pub open spec fn known_lines(content: Option<Seq<char>>) -> Option<Seq<Seq<char>>> {
    match content {
        Some(s) => Some(text::lines_of(s)),
        None => None,
    }
}

/// What lines in memory hold.
pub open spec fn lines_view(lines: Option<Vec<String>>) -> Option<Seq<Seq<char>>> {
    match lines {
        Some(v) => Some(text::texts(v@)),
        None => None,
    }
}

/// The lines of a document, if its text is known.
fn split_known_lines(content: Option<&str>) -> (lines: Option<Vec<String>>)
    ensures
        lines_view(lines) == known_lines(text::optional(content)),
{
    match content {
        Some(s) => Some(text::split_lines(s)),
        None => None,
    }
}

/// What a finding underlines.
fn underline(
    lines: &Option<Vec<String>>,
    msg: &str,
    source: &str,
    line: u32,
    column: u32,
) -> (r: Range)
    requires
        column < u32::MAX,
    ensures
        r == underlined(lines_view(*lines), msg@, source@, line, column),
{
    if let Some(v) = lines {
        if (line as usize) < v.len() {
            assert(text::texts(v@)[line as int] == v@[line as int]@);
            let content: &str = &v[line as usize];
            return if is_line_level(msg, source) {
                find_line_range(content, line)
            } else if is_tag_level(msg, source) {
                find_tag_range(content, line, column)
            } else {
                find_token_range(content, line, column)
            };
        }
    }
    make_range(line, column, column + 1)
}

/// The finding for a message, given the lines of its document.
fn diagnose(message: &Json, lines: &Option<Vec<String>>, uri: &str) -> (r: Option<Diagnostic>)
    ensures
        match r {
            Some(d) => diagnostic_of(message@, lines_view(*lines), uri@) == Some(d@),
            None => diagnostic_of(message@, lines_view(*lines), uri@) is None,
        },
{
    let line: u32 = match message.get("line") {
        Some(j) => match j.as_natural() {
            Some(n) => n as u32,
            None => return None,
        },
        None => return None,
    };
    let column: u32 = match message.get("column") {
        Some(j) => match j.as_natural() {
            Some(n) => n as u32,
            None => return None,
        },
        None => return None,
    };
    let msg: &str = match message.text_member("message") {
        Some(s) => s,
        None => return None,
    };
    let kind: &str = match message.text_member("type") {
        Some(s) => s,
        None => return None,
    };
    let source: &str = match message.get("source") {
        Some(j) => match j.as_text() {
            Some(s) => s,
            None => "",
        },
        None => return None,
    };
    let fixable: bool = match message.get("fixable") {
        Some(j) => match j.as_truth() {
            Some(b) => b,
            None => false,
        },
        None => return None,
    };
    let severity: Severity = if text::same_text(kind, "ERROR") {
        Severity::Error
    } else if text::same_text(kind, "WARNING") {
        Severity::Warning
    } else {
        Severity::Information
    };
    let line: u32 = if line > 0 {
        line - 1
    } else {
        0
    };
    let column: u32 = if column > 0 {
        column - 1
    } else {
        0
    };
    let range: Range = underline(lines, msg, source, line, column);
    let display_message: String = if fixable {
        "\u{1f6e0}\u{fe0f} ".to_string().concat(msg)
    } else {
        msg.to_string()
    };
    Some(
        Diagnostic {
            range,
            severity,
            code: if source.is_empty() {
                None
            } else {
                Some(source.to_string())
            },
            source: "phpcs".to_string(),
            message: display_message,
            related_information: extract_related_information(msg, uri),
            code_description: doc_url::generate_phpcs_doc_url(source),
            data: DiagnosticData {
                fixable,
                phpcs_source: source.to_string(),
                phpcs_severity: match message.get("severity") {
                    Some(j) => Some(j.duplicate()),
                    None => None,
                },
            },
        },
    )
}

/// The finding for a message of PHP_CodeSniffer about a document, if the message is complete.
pub fn convert_message(message: &Json, content: Option<&str>, uri: &str) -> (r: Option<Diagnostic>)
    ensures
        match r {
            Some(d) => diagnostic_of(message@, known_lines(text::optional(content)), uri@) == Some(d@),
            None => diagnostic_of(message@, known_lines(text::optional(content)), uri@) is None,
        },
{
    diagnose(message, &split_known_lines(content), uri)
}

/// What an optional finding adds to a list.
pub open spec fn listed(d: Option<DiagnosticView>) -> Seq<DiagnosticView> {
    match d {
        Some(d) => seq![d],
        None => seq![],
    }
}

/// The findings for messages, in their order, without the incomplete ones.
pub open spec fn findings_of_messages(
    messages: Seq<crate::json::JsonView>,
    lines: Option<Seq<Seq<char>>>,
    uri: Seq<char>,
) -> Seq<DiagnosticView>
    decreases messages.len(),
{
    if messages.len() == 0 {
        seq![]
    } else {
        findings_of_messages(messages.drop_last(), lines, uri) + listed(
            diagnostic_of(messages.last(), lines, uri),
        )
    }
}

/// The findings for the report on one file.
pub open spec fn findings_of_file(
    file: crate::json::JsonView,
    lines: Option<Seq<Seq<char>>>,
    uri: Seq<char>,
) -> Seq<DiagnosticView> {
    match file.get("messages"@) {
        Some(crate::json::JsonView::Array(messages)) => findings_of_messages(messages, lines, uri),
        _ => seq![],
    }
}

/// The findings for the reports on several files, in their order.
pub open spec fn findings_of_files(
    files: Seq<(Seq<char>, crate::json::JsonView)>,
    lines: Option<Seq<Seq<char>>>,
    uri: Seq<char>,
) -> Seq<DiagnosticView>
    decreases files.len(),
{
    if files.len() == 0 {
        seq![]
    } else {
        findings_of_files(files.drop_last(), lines, uri) + findings_of_file(
            files.last().1,
            lines,
            uri,
        )
    }
}

/// The findings of a report.
pub open spec fn findings_of_report(
    report: crate::json::JsonView,
    content: Option<Seq<char>>,
    uri: Seq<char>,
) -> Seq<DiagnosticView> {
    match report.get("files"@) {
        Some(crate::json::JsonView::Object(files)) => findings_of_files(
            files,
            known_lines(content),
            uri,
        ),
        _ => seq![],
    }
}

/// The findings of a report as it is printed. A blank one has none, nor has one that is not JSON.
pub open spec fn findings_of_output(
    output: Seq<char>,
    content: Option<Seq<char>>,
    uri: Seq<char>,
) -> Seq<DiagnosticView> {
    if text::blank(output) {
        seq![]
    } else {
        match crate::json::parsed_json(output) {
            Some(report) => findings_of_report(report, content, uri),
            None => seq![],
        }
    }
}

/// Appends the findings for messages to those found so far.
fn append_findings(
    found: &mut Vec<Diagnostic>,
    messages: &Vec<Json>,
    lines: &Option<Vec<String>>,
    uri: &str,
)
    ensures
        diagnostics_view(final(found)@) == diagnostics_view(old(found)@) + findings_of_messages(
            messages@.map_values(|j: Json| j@),
            lines_view(*lines),
            uri@,
        ),
{
    let ghost all = messages@.map_values(|j: Json| j@);
    let mut i: usize = 0;
    assert(all.take(0) =~= seq![]);
    while i < messages.len()
        invariant
            i <= messages@.len(),
            all == messages@.map_values(|j: Json| j@),
            diagnostics_view(found@) == diagnostics_view(old(found)@) + findings_of_messages(
                all.take(i as int),
                lines_view(*lines),
                uri@,
            ),
        decreases messages@.len() - i,
    {
        let ghost before = found@;
        assert(all.take(i + 1).drop_last() =~= all.take(i as int));
        assert(all.take(i + 1).last() == messages@[i as int]@);
        if let Some(d) = diagnose(&messages[i], lines, uri) {
            found.push(d);
            assert(diagnostics_view(found@) =~= diagnostics_view(before).push(d@));
        }
        i += 1;
    }
    assert(all.take(i as int) =~= all);
}

/// The findings of a report about a document.
pub fn diagnostics_of_report(report: &Json, content: Option<&str>, uri: &str) -> (r: Vec<
    Diagnostic,
>)
    ensures
        diagnostics_view(r@) == findings_of_report(report@, text::optional(content), uri@),
{
    let lines: Option<Vec<String>> = split_known_lines(content);
    let mut found: Vec<Diagnostic> = Vec::new();
    assert(diagnostics_view(found@) =~= seq![]);
    if let Some(Json::Object(files)) = report.get("files") {
        let ghost all = crate::json::json_view(Json::Object(*files))->Object_0;
        let mut i: usize = 0;
        assert(all.take(0) =~= seq![]);
        while i < files.len()
            invariant
                i <= files@.len(),
                all == crate::json::json_view(Json::Object(*files))->Object_0,
                all.len() == files@.len(),
                diagnostics_view(found@) == findings_of_files(
                    all.take(i as int),
                    lines_view(lines),
                    uri@,
                ),
            decreases files@.len() - i,
        {
            assert(all.take(i + 1).drop_last() =~= all.take(i as int));
            assert(all.take(i + 1).last().1 == files@[i as int].1@);
            if let Some(Json::Array(messages)) = files[i].1.get("messages") {
                assert(Json::Array(*messages)@->Array_0 =~= messages@.map_values(|j: Json| j@));
                append_findings(&mut found, messages, &lines, uri);
            }
            i += 1;
        }
        assert(all.take(i as int) =~= all);
    }
    found
}

/// The findings of a report as it is printed.
pub fn diagnostics_of_output(output: &str, content: Option<&str>, uri: &str) -> (r: Vec<Diagnostic>)
    ensures
        diagnostics_view(r@) == findings_of_output(output@, text::optional(content), uri@),
{
    let mut none: Vec<Diagnostic> = Vec::new();
    assert(diagnostics_view(none@) =~= seq![]);
    if text::is_blank(output) {
        return none;
    }
    match parse_json(output) {
        Some(report) => diagnostics_of_report(&report, content, uri),
        None => none,
    }
}

/// A finding never leaves its line: what it underlines starts and ends on the line that it is on.
pub proof fn law_underline_stays_on_line(
    lines: Option<Seq<Seq<char>>>,
    msg: Seq<char>,
    source: Seq<char>,
    line: u32,
    column: u32,
)
    ensures
        underlined(lines, msg, source, line, column).start.line == line,
        underlined(lines, msg, source, line, column).end.line == line,
{
}

/// Each complete message has its finding, and there is no finding but for a complete message.
pub proof fn law_findings_are_the_complete_messages(
    messages: Seq<crate::json::JsonView>,
    lines: Option<Seq<Seq<char>>>,
    uri: Seq<char>,
)
    ensures
        forall|d: DiagnosticView|
            findings_of_messages(messages, lines, uri).contains(d) <==> exists|i: int|
                0 <= i < messages.len() && #[trigger] diagnostic_of(messages[i], lines, uri) == Some(d),
        findings_of_messages(messages, lines, uri).len() <= messages.len(),
    decreases messages.len(),
{
    if messages.len() > 0 {
        let front = messages.drop_last();
        let before = findings_of_messages(front, lines, uri);
        let last = listed(diagnostic_of(messages.last(), lines, uri));
        law_findings_are_the_complete_messages(front, lines, uri);
        assert forall|d: DiagnosticView|
            findings_of_messages(messages, lines, uri).contains(d) <==> exists|i: int|
                0 <= i < messages.len() && #[trigger] diagnostic_of(messages[i], lines, uri) == Some(
                    d,
                ) by {
            let all = before + last;
            if all.contains(d) {
                let k = choose|k: int| 0 <= k < all.len() && all[k] == d;
                if k < before.len() {
                    assert(before[k] == d);
                    assert(before.contains(d));
                    let i = choose|i: int|
                        0 <= i < front.len() && #[trigger] diagnostic_of(front[i], lines, uri) == Some(
                            d,
                        );
                    assert(diagnostic_of(messages[i], lines, uri) == Some(d));
                } else {
                    assert(diagnostic_of(messages[messages.len() - 1], lines, uri) == Some(d));
                }
            }
            if exists|i: int|
                0 <= i < messages.len() && #[trigger] diagnostic_of(messages[i], lines, uri) == Some(
                    d,
                ) {
                let i = choose|i: int|
                    0 <= i < messages.len() && #[trigger] diagnostic_of(messages[i], lines, uri)
                        == Some(d);
                if i < front.len() {
                    assert(diagnostic_of(front[i], lines, uri) == Some(d));
                    assert(before.contains(d));
                    let k = choose|k: int| 0 <= k < before.len() && before[k] == d;
                    assert(all[k] == d);
                } else {
                    assert(all[before.len() as int] == d);
                }
            }
        }
    }
}

/// A report without findings gives none: one that is blank, and one that is not JSON.
pub proof fn law_no_report_no_findings(
    output: Seq<char>,
    content: Option<Seq<char>>,
    uri: Seq<char>,
)
    requires
        text::blank(output) || crate::json::parsed_json(output) is None,
    ensures
        findings_of_output(output, content, uri).len() == 0,
{
}

/// Messages on braces, on the order of imports, on what was expected and found and on duplicate
/// declarations come with remarks, and no others do. Every remark is on the document itself.
pub proof fn law_remarks_give_context(msg: Seq<char>, uri: Seq<char>)
    ensures
        related_of(msg, uri) is Some <==> about_braces(msg) || about_order(msg)
            || about_expectation(msg) || about_duplicate(msg),
        related_of(msg, uri) matches Some(v) ==> v.len() > 0 && forall|i: int|
            0 <= i < v.len() ==> (#[trigger] v[i]).uri == uri,
{
}

/// A message that says where it is, what it is about, of which type it is, where it comes from and
/// whether it can be fixed gives a finding that says the same: on its line, counted from zero in 32
/// bits, with its text, its type, its source and what goes with the source.
pub proof fn law_finding_says_what_the_message_says(
    m: crate::json::JsonView,
    lines: Option<Seq<Seq<char>>>,
    uri: Seq<char>,
)
    requires
        m.get("line"@) is Some && m.get("line"@)->0.natural() is Some,
        m.get("column"@) is Some && m.get("column"@)->0.natural() is Some,
        m.text_member("message"@) is Some,
        m.text_member("type"@) is Some,
        m.get("source"@) is Some,
        m.get("fixable"@) is Some,
    ensures
        ({
            let line = m.get("line"@)->0.natural()->0 % 0x1_0000_0000;
            let column = m.get("column"@)->0.natural()->0 % 0x1_0000_0000;
            let msg = m.text_member("message"@)->0;
            let kind = m.text_member("type"@)->0;
            let source = m.text_member("source"@);
            let fixable = m.get("fixable"@) == Some(crate::json::JsonView::Bool(true));
            let at_line = if line > 0 {
                (line - 1) as u32
            } else {
                0u32
            };
            let at_column = if column > 0 {
                (column - 1) as u32
            } else {
                0u32
            };
            let found = diagnostic_of(m, lines, uri);
            let d = found->0;
            &&& found is Some
            &&& d.range.start.line == at_line && d.range.end.line == at_line
            &&& d.range == underlined(
                lines,
                msg,
                if source is Some {
                    source->0
                } else {
                    ""@
                },
                at_line,
                at_column,
            )
            &&& kind == "ERROR"@ ==> d.severity is Error
            &&& kind == "WARNING"@ ==> d.severity is Warning
            &&& kind != "ERROR"@ && kind != "WARNING"@ ==> d.severity is Information
            &&& d.source == "phpcs"@
            &&& fixable ==> d.message == "\u{1f6e0}\u{fe0f} "@ + msg
            &&& !fixable ==> d.message == msg
            &&& d.fixable == fixable
            &&& source is Some && source->0.len() > 0 ==> d.code == source
            &&& source is None || source->0.len() == 0 ==> d.code is None
            &&& source is Some ==> d.phpcs_source == source->0
            &&& source is Some ==> d.code_description == doc_url::doc_url(source->0)
            &&& d.related_information == related_of(msg, uri)
            &&& d.phpcs_severity == m.get("severity"@)
        }),
{
    reveal_strlit("ERROR");
    reveal_strlit("WARNING");
    reveal_strlit("");
    assert("ERROR"@[0] == 'E' && "WARNING"@[0] == 'W');
    let line = m.get("line"@)->0.natural()->0;
    let column = m.get("column"@)->0.natural()->0;
    assert(line as u32 == line % 0x1_0000_0000) by (bit_vector);
    assert(column as u32 == column % 0x1_0000_0000) by (bit_vector);
}

/// A message that leaves out one of these gives no finding, and neither does one whose line, column,
/// text or type is of another kind.
pub proof fn law_incomplete_messages_give_no_finding(
    m: crate::json::JsonView,
    lines: Option<Seq<Seq<char>>>,
    uri: Seq<char>,
)
    ensures
        diagnostic_of(m, lines, uri) is None <==> {
            ||| m.get("line"@) is None || m.get("line"@)->0.natural() is None
            ||| m.get("column"@) is None || m.get("column"@)->0.natural() is None
            ||| m.text_member("message"@) is None
            ||| m.text_member("type"@) is None
            ||| m.get("source"@) is None
            ||| m.get("fixable"@) is None
        },
{
}

/// A finding on a line that is known underlines the whole line, a tag or a token of that line; one on
/// a line that is not known underlines the character at its column.
pub proof fn law_underline_goes_by_the_line(
    lines: Seq<Seq<char>>,
    msg: Seq<char>,
    source: Seq<char>,
    line: u32,
    column: u32,
)
    ensures
        line < lines.len() && line_level(msg, source) ==> underlined(
            Some(lines),
            msg,
            source,
            line,
            column,
        ) == crate::range::whole_line_range(lines[line as int], line),
        line < lines.len() && !line_level(msg, source) && tag_level(msg, source) ==> underlined(
            Some(lines),
            msg,
            source,
            line,
            column,
        ) == crate::range::tag_range(encode_utf8(lines[line as int]), line, column),
        line < lines.len() && !line_level(msg, source) && !tag_level(msg, source) ==> underlined(
            Some(lines),
            msg,
            source,
            line,
            column,
        ) == crate::range::token_range(lines[line as int], line, column),
        line >= lines.len() ==> underlined(Some(lines), msg, source, line, column) == underlined(
            None,
            msg,
            source,
            line,
            column,
        ),
        column < u32::MAX ==> {
            let range = underlined(None, msg, source, line, column);
            &&& range.start.line == line && range.end.line == line
            &&& range.start.character == column
            &&& range.end.character == column + 1
        },
{
}

/// A finding is about a whole line if and only if its message or its source holds one of these
/// phrases.
pub proof fn law_phrases_for_whole_lines(msg: Seq<char>, source: Seq<char>)
    ensures
        line_level(msg, source) <==> {
            ||| text::occurs_in("Line exceeds"@, msg)
            ||| text::occurs_in("line is too long"@, msg)
            ||| text::occurs_in("Whitespace found at end of line"@, msg)
            ||| text::occurs_in("Line indented incorrectly"@, msg)
            ||| text::occurs_in("separated by a single blank line"@, msg)
            ||| text::occurs_in("blocks must be separated"@, msg)
            ||| text::occurs_in("Generic.Files.LineLength"@, source)
            ||| text::occurs_in("Generic.WhiteSpace.DisallowTabIndent"@, source)
            ||| text::occurs_in("Squiz.WhiteSpace.SuperfluousWhitespace"@, source)
            ||| text::occurs_in("PSR12.Files.FileHeader.SpacingAfterBlock"@, source)
        },
        tag_level(msg, source) <==> {
            ||| text::occurs_in("closing tag"@, msg)
            ||| text::occurs_in("Opening PHP tag"@, msg)
            ||| text::occurs_in("<?php"@, msg)
            ||| text::occurs_in("?>"@, msg)
            ||| text::occurs_in("PSR2.Files.ClosingTag"@, source)
            ||| text::occurs_in("PSR12.Files.OpenTag"@, source)
        },
{
}

/// Each kind of remark goes with its own messages, says its own text on the start of the document,
/// and keeps its place among the others.
pub proof fn law_remarks_by_message(msg: Seq<char>, uri: Seq<char>, i: int)
    requires
        0 <= i < remarks(msg, uri).len(),
    ensures
        ({
            let r = remarks(msg, uri)[i];
            &&& r.uri == uri
            &&& r.range.start.line == 0 && r.range.start.character == 0
            &&& r.range.end.line == 0 && r.range.end.character == 0
            &&& {
                ||| (text::occurs_in("Opening brace"@, msg) || text::occurs_in("Closing brace"@, msg))
                    && r.message
                    == "PSR-12 requires specific brace placement for control structures and declarations"@
                ||| (text::occurs_in("use statement"@, msg) || text::occurs_in("namespace"@, msg))
                    && r.message
                    == "PSR-12 requires specific ordering: namespace \u{2192} use statements \u{2192} class declaration"@
                ||| (text::word_in("Expected"@, msg) || text::word_in("expected"@, msg)) && (
                text::word_in("Found"@, msg) || text::word_in("found"@, msg)) && r.message
                    == "The message compares what the coding standard expects here with what it found"@
                ||| (text::occurs_in("Duplicate"@, msg) || text::occurs_in("duplicate"@, msg)
                    || text::occurs_in("already declared"@, msg) || text::occurs_in(
                    "already defined"@,
                    msg,
                )) && r.message
                    == "A name may be declared only once; it is declared in another place too"@
            }
        }),
        text::occurs_in("Opening brace"@, msg) || text::occurs_in("Closing brace"@, msg)
            ==> remarks(msg, uri)[0].message
            == "PSR-12 requires specific brace placement for control structures and declarations"@,
{
}

/// The number of remarks is the number of kinds that a message is of.
pub proof fn law_one_remark_for_each_kind(msg: Seq<char>, uri: Seq<char>)
    ensures
        remarks(msg, uri).len() == (if text::occurs_in("Opening brace"@, msg) || text::occurs_in(
            "Closing brace"@,
            msg,
        ) {
            1int
        } else {
            0
        }) + (if text::occurs_in("use statement"@, msg) || text::occurs_in("namespace"@, msg) {
            1int
        } else {
            0
        }) + (if (text::word_in("Expected"@, msg) || text::word_in("expected"@, msg)) && (
        text::word_in("Found"@, msg) || text::word_in("found"@, msg)) {
            1int
        } else {
            0
        }) + (if text::occurs_in("Duplicate"@, msg) || text::occurs_in("duplicate"@, msg)
            || text::occurs_in("already declared"@, msg) || text::occurs_in("already defined"@, msg) {
            1int
        } else {
            0
        }),
{
}

/// The findings of two lists of messages, one after the other, are those of the first followed by
/// those of the second, and one message gives its own finding or none: none is lost, doubled or out
/// of order.
pub proof fn law_findings_follow_the_messages(
    a: Seq<crate::json::JsonView>,
    b: Seq<crate::json::JsonView>,
    m: crate::json::JsonView,
    lines: Option<Seq<Seq<char>>>,
    uri: Seq<char>,
)
    ensures
        findings_of_messages(a + b, lines, uri) == findings_of_messages(a, lines, uri)
            + findings_of_messages(b, lines, uri),
        match diagnostic_of(m, lines, uri) {
            Some(d) => findings_of_messages(seq![m], lines, uri) == seq![d],
            None => findings_of_messages(seq![m], lines, uri).len() == 0,
        },
    decreases b.len(),
{
    if b.len() == 0 {
        assert(a + b =~= a);
        assert(findings_of_messages(a, lines, uri) + findings_of_messages(b, lines, uri)
            =~= findings_of_messages(a, lines, uri));
    } else {
        law_findings_follow_the_messages(a, b.drop_last(), m, lines, uri);
        assert((a + b).drop_last() =~= a + b.drop_last());
        assert((a + b).last() == b.last());
        let x = findings_of_messages(a, lines, uri);
        let y = findings_of_messages(b.drop_last(), lines, uri);
        let z = listed(diagnostic_of(b.last(), lines, uri));
        assert((x + y) + z =~= x + (y + z));
    }
    let one = seq![m];
    assert(one.drop_last() =~= seq![]);
    assert(one.last() == m);
    assert(findings_of_messages(one.drop_last(), lines, uri) =~= seq![]);
    assert(findings_of_messages(one, lines, uri) =~= listed(diagnostic_of(m, lines, uri)));
}

/// The findings on two lists of files, one after the other, are those on the first followed by those
/// on the second, and one file has the findings of its messages.
pub proof fn law_findings_follow_the_files(
    a: Seq<(Seq<char>, crate::json::JsonView)>,
    b: Seq<(Seq<char>, crate::json::JsonView)>,
    name: Seq<char>,
    file: crate::json::JsonView,
    lines: Option<Seq<Seq<char>>>,
    uri: Seq<char>,
)
    ensures
        findings_of_files(a + b, lines, uri) == findings_of_files(a, lines, uri)
            + findings_of_files(b, lines, uri),
        file.get("messages"@) matches Some(crate::json::JsonView::Array(messages))
            ==> findings_of_files(seq![(name, file)], lines, uri) == findings_of_messages(
            messages,
            lines,
            uri,
        ),
        !(file.get("messages"@) is Some && file.get("messages"@)->0 is Array)
            ==> findings_of_files(seq![(name, file)], lines, uri).len() == 0,
    decreases b.len(),
{
    if b.len() == 0 {
        assert(a + b =~= a);
        assert(findings_of_files(a, lines, uri) + findings_of_files(b, lines, uri)
            =~= findings_of_files(a, lines, uri));
    } else {
        law_findings_follow_the_files(a, b.drop_last(), name, file, lines, uri);
        assert((a + b).drop_last() =~= a + b.drop_last());
        assert((a + b).last() == b.last());
        let x = findings_of_files(a, lines, uri);
        let y = findings_of_files(b.drop_last(), lines, uri);
        let z = findings_of_file(b.last().1, lines, uri);
        assert((x + y) + z =~= x + (y + z));
    }
    let one = seq![(name, file)];
    assert(one.drop_last() =~= seq![]);
    assert(one.last() == (name, file));
    assert(findings_of_files(one.drop_last(), lines, uri) =~= seq![]);
    assert(findings_of_files(one, lines, uri) =~= findings_of_file(file, lines, uri));
}

/// A report has the findings on its files, placed on the lines of the document where its text is
/// known; a text that is not blank has those of the report that it is.
pub proof fn law_report_has_the_findings_on_its_files(
    output: Seq<char>,
    report: crate::json::JsonView,
    content: Option<Seq<char>>,
    uri: Seq<char>,
)
    ensures
        report.get("files"@) matches Some(crate::json::JsonView::Object(files))
            ==> findings_of_report(report, content, uri) == findings_of_files(
            files,
            if content is Some {
                Some(text::lines_of(content->0))
            } else {
                None
            },
            uri,
        ),
        !(report.get("files"@) is Some && report.get("files"@)->0 is Object) ==> findings_of_report(
            report,
            content,
            uri,
        ).len() == 0,
        !text::blank(output) && crate::json::parsed_json(output) is Some ==> findings_of_output(
            output,
            content,
            uri,
        ) == findings_of_report(crate::json::parsed_json(output)->0, content, uri),
{
}

/// Where a kind of remark stands among the others: remarks on braces come first, those on order next,
/// and those on duplicates last.
pub open spec fn remark_rank(message: Seq<char>) -> int {
    if message
        == "PSR-12 requires specific brace placement for control structures and declarations"@ {
        0
    } else if message
        == "PSR-12 requires specific ordering: namespace \u{2192} use statements \u{2192} class declaration"@ {
        1
    } else if message
        == "The message compares what the coding standard expects here with what it found"@ {
        2
    } else {
        3
    }
}

/// Remarks come in the order of their kinds, each kind at most once, and all of them go with the
/// finding; a finding without any has no list of them.
pub proof fn law_remarks_in_order(msg: Seq<char>, uri: Seq<char>, i: int, j: int)
    ensures
        0 <= i < j < remarks(msg, uri).len() ==> remark_rank(remarks(msg, uri)[i].message)
            < remark_rank(remarks(msg, uri)[j].message),
        remarks(msg, uri).len() == 0 ==> related_of(msg, uri) is None,
        remarks(msg, uri).len() > 0 ==> related_of(msg, uri) == Some(remarks(msg, uri)),
{
    reveal_strlit(
        "PSR-12 requires specific brace placement for control structures and declarations",
    );
    reveal_strlit(
        "PSR-12 requires specific ordering: namespace \u{2192} use statements \u{2192} class declaration",
    );
    reveal_strlit("The message compares what the coding standard expects here with what it found");
    reveal_strlit("A name may be declared only once; it is declared in another place too");
    let braces =
        "PSR-12 requires specific brace placement for control structures and declarations"@;
    let order =
        "PSR-12 requires specific ordering: namespace \u{2192} use statements \u{2192} class declaration"@;
    assert(braces[25] != order[25]);
    assert("The message compares what the coding standard expects here with what it found"@[0] == 'T');
    assert("A name may be declared only once; it is declared in another place too"@[0] == 'A');
    assert(braces[0] == 'P' && order[0] == 'P');
}

} // verus!
