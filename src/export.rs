//! Chat transcripts rendered as plain text, Markdown or HTML.
use vstd::prelude::*;
use crate::chat::{ChatMessage, ChatSession};
use crate::experience::{clock_text, datetime_text, format_clock, format_datetime};
use crate::text::{to_upper, upper_of};

verus! {

/// The rule under the plain-text header.
pub const DOUBLE_RULE: &'static str = "==================================================";

/// The rule after each plain-text message.
pub const SINGLE_RULE: &'static str = "--------------------------------------------------";

/// The start of an HTML transcript, up to the opening `<body>` tag.
pub const HTML_HEAD: &'static str = "<!DOCTYPE html>\n<html>\n<head>\n    <meta charset=\"UTF-8\">\n    <title>Chat Export</title>\n    <style>\n        body { font-family: Arial, sans-serif; max-width: 800px; margin: 0 auto; padding: 20px; }\n        .message { margin: 20px 0; padding: 15px; border-radius: 8px; }\n        .user { background-color: #e3f2fd; text-align: right; }\n        .assistant { background-color: #f5f5f5; }\n        .role { font-weight: bold; margin-bottom: 5px; }\n        .time { color: #666; font-size: 0.9em; }\n    </style>\n</head>\n<body>\n";

/// One message in plain text.
pub open spec fn txt_message(m: ChatMessage) -> Seq<char> {
    "\n["@ + clock_text(m.timestamp as int) + "] "@ + upper_of(m.role@) + "\n"@ + m.content@
        + "\n"@ + SINGLE_RULE@ + "\n"@
}

/// The messages `ms` in plain text.
pub open spec fn txt_messages(ms: Seq<ChatMessage>) -> Seq<char>
    decreases ms.len(),
{
    if ms.len() == 0 {
        Seq::empty()
    } else {
        txt_messages(ms.drop_last()) + txt_message(ms.last())
    }
}

/// The marker in front of a role in Markdown.
pub open spec fn role_emoji(role: Seq<char>) -> Seq<char> {
    if role == "user"@ {
        "\u{1f464}"@
    } else {
        "\u{1f916}"@
    }
}

/// One message in Markdown.
pub open spec fn md_message(m: ChatMessage) -> Seq<char> {
    "## "@ + role_emoji(m.role@) + " "@ + upper_of(m.role@) + " ("@ + clock_text(
        m.timestamp as int,
    ) + ")\n\n"@ + m.content@ + "\n\n"@
}

/// The messages `ms` in Markdown.
pub open spec fn md_messages(ms: Seq<ChatMessage>) -> Seq<char>
    decreases ms.len(),
{
    if ms.len() == 0 {
        Seq::empty()
    } else {
        md_messages(ms.drop_last()) + md_message(ms.last())
    }
}

/// One message in HTML.
pub open spec fn html_message(m: ChatMessage) -> Seq<char> {
    "<div class=\"message "@ + m.role@ + "\">\n    <div class=\"role\">"@ + upper_of(m.role@)
        + "</div>\n    <div class=\"time\">"@ + clock_text(m.timestamp as int)
        + "</div>\n    <p>"@ + m.content@ + "</p>\n</div>\n"@
}

/// The messages `ms` in HTML.
pub open spec fn html_messages(ms: Seq<ChatMessage>) -> Seq<char>
    decreases ms.len(),
{
    if ms.len() == 0 {
        Seq::empty()
    } else {
        html_messages(ms.drop_last()) + html_message(ms.last())
    }
}

/// Renders chat sessions.
pub struct ChatExporter;

impl ChatExporter {
    /// An exporter.
    pub fn new() -> (r: ChatExporter) {
        ChatExporter
    }

    /// The session as plain text: a header with its id and creation time, a
    /// rule, then each message with its time, role and content.
    pub fn export_txt(&self, session: &ChatSession) -> (r: String)
        ensures
            r@ == "Chat Session: "@ + session.id@ + "\n"@ + "Created: "@ + datetime_text(
                session.created_at as int,
            ) + "\n\n"@ + DOUBLE_RULE@ + "\n"@ + txt_messages(session.messages@),
    {
        let mut out = String::from_str("Chat Session: ");
        out.append(session.id.as_str());
        out.append("\n");
        out.append("Created: ");
        let created = format_datetime(session.created_at);
        out.append(created.as_str());
        out.append("\n\n");
        out.append(DOUBLE_RULE);
        out.append("\n");
        let ghost head = out@;
        let ms = &session.messages;
        let mut i: usize = 0;
        while i < ms.len()
            invariant
                i <= ms@.len(),
                out@ == head + txt_messages(ms@.take(i as int)),
            decreases ms@.len() - i,
        {
            let m = &ms[i];
            out.append("\n[");
            let t = format_clock(m.timestamp);
            out.append(t.as_str());
            out.append("] ");
            let role = to_upper(m.role.as_str());
            out.append(role.as_str());
            out.append("\n");
            out.append(m.content.as_str());
            out.append("\n");
            out.append(SINGLE_RULE);
            out.append("\n");
            assert(ms@.take(i + 1).drop_last() =~= ms@.take(i as int));
            i = i + 1;
            assert(out@ =~= head + txt_messages(ms@.take(i as int)));
        }
        assert(ms@.take(i as int) =~= ms@);
        out
    }

    /// The session as Markdown: a title with its id, its creation time, a
    /// rule, then a section per message.
    pub fn export_markdown(&self, session: &ChatSession) -> (r: String)
        ensures
            r@ == "# Chat Session: "@ + session.id@ + "\n\n"@ + "**Created:** "@ + datetime_text(
                session.created_at as int,
            ) + "\n\n"@ + "---\n\n"@ + md_messages(session.messages@),
    {
        let mut out = String::from_str("# Chat Session: ");
        out.append(session.id.as_str());
        out.append("\n\n");
        out.append("**Created:** ");
        let created = format_datetime(session.created_at);
        out.append(created.as_str());
        out.append("\n\n");
        out.append("---\n\n");
        let ghost head = out@;
        let ms = &session.messages;
        let user = String::from_str("user");
        let mut i: usize = 0;
        while i < ms.len()
            invariant
                i <= ms@.len(),
                user@ == "user"@,
                out@ == head + md_messages(ms@.take(i as int)),
            decreases ms@.len() - i,
        {
            let m = &ms[i];
            out.append("## ");
            if m.role == user {
                out.append("\u{1f464}");
            } else {
                out.append("\u{1f916}");
            }
            out.append(" ");
            let role = to_upper(m.role.as_str());
            out.append(role.as_str());
            out.append(" (");
            let t = format_clock(m.timestamp);
            out.append(t.as_str());
            out.append(")\n\n");
            out.append(m.content.as_str());
            out.append("\n\n");
            assert(ms@.take(i + 1).drop_last() =~= ms@.take(i as int));
            i = i + 1;
            assert(out@ =~= head + md_messages(ms@.take(i as int)));
        }
        assert(ms@.take(i as int) =~= ms@);
        out
    }

    /// The session as an HTML page: a styled head, a title with its id, its
    /// creation time, then a block per message.
    pub fn export_html(&self, session: &ChatSession) -> (r: String)
        ensures
            r@ == HTML_HEAD@ + "<h1>Chat Session: "@ + session.id@ + "</h1>\n"@ + "<p>Created: "@
                + datetime_text(session.created_at as int) + "</p>\n"@ + "<hr>\n"@
                + html_messages(session.messages@) + "</body>\n</html>"@,
    {
        let mut out = String::from_str(HTML_HEAD);
        out.append("<h1>Chat Session: ");
        out.append(session.id.as_str());
        out.append("</h1>\n");
        out.append("<p>Created: ");
        let created = format_datetime(session.created_at);
        out.append(created.as_str());
        out.append("</p>\n");
        out.append("<hr>\n");
        let ghost head = out@;
        let ms = &session.messages;
        let mut i: usize = 0;
        while i < ms.len()
            invariant
                i <= ms@.len(),
                out@ == head + html_messages(ms@.take(i as int)),
            decreases ms@.len() - i,
        {
            let m = &ms[i];
            out.append("<div class=\"message ");
            out.append(m.role.as_str());
            out.append("\">\n    <div class=\"role\">");
            let role = to_upper(m.role.as_str());
            out.append(role.as_str());
            out.append("</div>\n    <div class=\"time\">");
            let t = format_clock(m.timestamp);
            out.append(t.as_str());
            out.append("</div>\n    <p>");
            out.append(m.content.as_str());
            out.append("</p>\n</div>\n");
            assert(ms@.take(i + 1).drop_last() =~= ms@.take(i as int));
            i = i + 1;
            assert(out@ =~= head + html_messages(ms@.take(i as int)));
        }
        assert(ms@.take(i as int) =~= ms@);
        out.append("</body>\n</html>");
        out
    }
}

} // verus!
