//! How each tag of a laid-out job log looks: weight, underline, font and
//! colours.
use vstd::prelude::*;
use crate::log_render::LogTag;
use crate::log_parse::WorkflowCommandKind;

verus! {

// ---------------------------------------------------------------------------
// How each tag looks.
// ---------------------------------------------------------------------------

/// How a tag styles its text.
#[derive(Debug, Clone, Copy)]
pub struct TagStyle {
    pub bold: bool,
    pub underline: bool,
    pub monospace: bool,
    pub foreground: Option<&'static str>,
    pub background: Option<&'static str>,
}

/// A colour as an optional text.
pub open spec fn opt_css(c: Option<crate::ansi::AnsiColor>) -> Option<Seq<char>> {
    match c {
        Some(x) => Some(crate::ansi::css_of(x)),
        None => None,
    }
}

/// An optional static text as an optional character sequence.
pub open spec fn opt_lit(s: Option<&'static str>) -> Option<Seq<char>> {
    match s {
        Some(x) => Some(x@),
        None => None,
    }
}

/// How each tag looks: timestamps and annotation details grey, group
/// headers bold blue, commands bold blue in monospace, error lines bold red,
/// secrets grey on dark grey; notices, warnings and errors bold in blue,
/// amber and red, debug lines grey; ANSI styles as the escape codes set them.
pub open spec fn style_of(tag: LogTag) -> (bool, bool, bool, Option<Seq<char>>, Option<Seq<char>>) {
    match tag {
        LogTag::Timestamp => (false, false, false, Some("#8a8a8a"@), None),
        LogTag::Group => (true, false, false, Some("#3465a4"@), None),
        LogTag::Command => (true, false, true, Some("#1a73e8"@), None),
        LogTag::ErrorLine => (true, false, false, Some("#b3261e"@), None),
        LogTag::Secret => (false, false, false, Some("#9aa0a6"@), Some("#2b2b2b"@)),
        LogTag::Annotation(WorkflowCommandKind::Notice) => (true, false, false, Some("#0b57d0"@), None),
        LogTag::Annotation(WorkflowCommandKind::Warning) => (true, false, false, Some("#b26a00"@), None),
        LogTag::Annotation(WorkflowCommandKind::Error) => (true, false, false, Some("#b3261e"@), None),
        LogTag::Annotation(WorkflowCommandKind::Debug) => (false, false, false, Some("#6a6a6a"@), None),
        LogTag::AnnotationMeta => (false, false, false, Some("#8a8a8a"@), None),
        LogTag::Ansi(st) => (st.bold, st.underline, false, opt_css(st.fg), opt_css(st.bg)),
    }
}

fn plain(bold: bool, monospace: bool, foreground: &'static str, background: Option<&'static str>) -> (t: TagStyle)
    ensures
        t.bold == bold,
        !t.underline,
        t.monospace == monospace,
        t.foreground == Some(foreground),
        t.background == background,
{
    TagStyle { bold, underline: false, monospace, foreground: Some(foreground), background }
}

/// How a tag styles its text.
pub fn tag_style(tag: LogTag) -> (t: TagStyle)
    ensures
        (t.bold, t.underline, t.monospace, opt_lit(t.foreground), opt_lit(t.background)) == style_of(tag),
{
    match tag {
        LogTag::Timestamp => plain(false, false, "#8a8a8a", None),
        LogTag::Group => plain(true, false, "#3465a4", None),
        LogTag::Command => plain(true, true, "#1a73e8", None),
        LogTag::ErrorLine => plain(true, false, "#b3261e", None),
        LogTag::Secret => plain(false, false, "#9aa0a6", Some("#2b2b2b")),
        LogTag::Annotation(WorkflowCommandKind::Notice) => plain(true, false, "#0b57d0", None),
        LogTag::Annotation(WorkflowCommandKind::Warning) => plain(true, false, "#b26a00", None),
        LogTag::Annotation(WorkflowCommandKind::Error) => plain(true, false, "#b3261e", None),
        LogTag::Annotation(WorkflowCommandKind::Debug) => plain(false, false, "#6a6a6a", None),
        LogTag::AnnotationMeta => plain(false, false, "#8a8a8a", None),
        LogTag::Ansi(st) => TagStyle {
            bold: st.bold,
            underline: st.underline,
            monospace: false,
            foreground: match st.fg {
                Some(c) => Some(c.to_css()),
                None => None,
            },
            background: match st.bg {
                Some(c) => Some(c.to_css()),
                None => None,
            },
        },
    }
}


} // verus!
