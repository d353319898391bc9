//! Converting an imported note's rich-text archive into markdown.
//!
//! The archive arrives as a decoded document: the full plain text plus a
//! list of attribute runs, each covering a span of characters and carrying
//! paragraph style, inline style and link information.  The host decompresses
//! and decodes the archive into these plain structures; the conversion to
//! markdown happens here.

use vstd::prelude::*;
use crate::text;

verus! {

use vstd::string::StrSliceExecFns;
use vstd::string::StringExecFns;

/// A note listed for import.
#[derive(Debug, Clone)]
pub struct AppleNoteEntry {
    pub note_id: i64,
    pub title: String,
    pub folder_name: String,
    pub snippet: String,
    pub modified_date: String,
    pub account_name: String,
}

/// Checklist state of a paragraph.
#[derive(Debug, Clone)]
pub struct Checklist {
    pub uuid: Option<Vec<u8>>,
    pub done: Option<i32>,
}

/// Paragraph-level style of a run.
#[derive(Debug, Clone)]
pub struct ParagraphStyle {
    pub style_type: Option<i32>,
    pub alignment: Option<i32>,
    pub indent_amount: Option<i32>,
    pub checklist: Option<Checklist>,
}

/// Font information carried by a run (unused by the conversion).
#[derive(Debug, Clone)]
pub struct FontInfo {
    pub font_name: Option<String>,
}

/// Color information carried by a run (unused by the conversion).
#[derive(Debug, Clone)]
pub struct ColorInfo {
    pub rgba: Option<u32>,
}

/// Attachment information; a run carrying one is a placeholder, not text.
#[derive(Debug, Clone)]
pub struct AttachmentInfo {
    pub attachment_identifier: Option<String>,
    pub type_uti: Option<String>,
}

/// One styled span of the note's text.
#[derive(Debug, Clone)]
pub struct AttributeRun {
    pub length: Option<i32>,
    pub paragraph_style: Option<ParagraphStyle>,
    pub font: Option<FontInfo>,
    pub font_weight: Option<i32>,
    pub underlined: Option<i32>,
    pub strikethrough: Option<i32>,
    pub superscript: Option<i32>,
    pub link: Option<String>,
    pub color: Option<ColorInfo>,
    pub attachment_info: Option<AttachmentInfo>,
}

/// The decoded note: its text and the runs that style it.
#[derive(Debug, Clone)]
pub struct Note {
    pub note_text: Option<String>,
    pub attribute_run: Vec<AttributeRun>,
}

/// The inline-markdown form of one line: bold/italic wrappers by font
/// weight, strikethrough marks, and a link wrapper, from innermost out.
pub open spec fn inline_formatted(
    t: Seq<char>,
    weight: int,
    strike: int,
    link: Option<Seq<char>>,
) -> Seq<char> {
    if t.len() == 0 {
        Seq::<char>::empty()
    } else {
        let base = if weight == 1 {
            "**"@ + t + "**"@
        } else if weight == 2 {
            "*"@ + t + "*"@
        } else if weight == 3 {
            "***"@ + t + "***"@
        } else {
            t
        };
        let struck = if strike == 1 {
            "~~"@ + base + "~~"@
        } else {
            base
        };
        match link {
            Some(url) => "["@ + struck + "]("@ + url + ")"@,
            None => struck,
        }
    }
}

/// Applies bold/italic, strikethrough and link markdown to one line.
pub fn apply_inline_formatting(line: &str, font_weight: i32, strikethrough: i32, link: Option<
    &str,
>) -> (r: String)
    ensures
        r@ == inline_formatted(
            line@,
            font_weight as int,
            strikethrough as int,
            match link {
                Some(u) => Some(u@),
                None => None,
            },
        ),
{
    if line.unicode_len() == 0 {
        return String::new();
    }
    let mut result = if font_weight == 1 {
        let mut s = String::from_str("**");
        s.append(line);
        s.append("**");
        s
    } else if font_weight == 2 {
        let mut s = String::from_str("*");
        s.append(line);
        s.append("*");
        s
    } else if font_weight == 3 {
        let mut s = String::from_str("***");
        s.append(line);
        s.append("***");
        s
    } else {
        line.to_owned()
    };
    if strikethrough == 1 {
        let mut s = String::from_str("~~");
        s.append(result.as_str());
        s.append("~~");
        result = s;
    }
    match link {
        Some(url) => {
            let mut s = String::from_str("[");
            s.append(result.as_str());
            s.append("](");
            s.append(url);
            s.append(")");
            proof {
                assert(s@ =~= inline_formatted(
                    line@,
                    font_weight as int,
                    strikethrough as int,
                    Some(url@),
                ));
            }
            s
        },
        None => {
            proof {
                assert(result@ =~= inline_formatted(
                    line@,
                    font_weight as int,
                    strikethrough as int,
                    None::<Seq<char>>,
                ));
            }
            result
        },
    }
}

/// Renders the decoded note as markdown: headings, bullet, numbered and
/// checklist paragraphs by style type, fenced blocks for monospaced spans,
/// inline styles per run, attachment placeholders dropped, and the first
/// plain line treated as the note's title.  The result never carries
/// trailing whitespace.
pub fn protobuf_to_markdown(note: &Note) -> (r: String)
    ensures
        r@ == text::trim_end_spec(r@),
{
    let empty_text = String::new();
    let note_text: &String = match &note.note_text {
        Some(t) => t,
        None => &empty_text,
    };
    let chars = text::str_to_chars(note_text.as_str());
    let total = chars.len();
    let mut pos: usize = 0;
    let mut output = String::new();
    let mut numbered_counter: u32 = 0;
    let mut in_code_block = false;
    let mut is_first_line = true;

    let mut ri: usize = 0;
    while ri < note.attribute_run.len()
        invariant
            pos <= total,
            total == chars@.len(),
        decreases note.attribute_run@.len() - ri,
    {
        let run = &note.attribute_run[ri];
        ri += 1;

        let run_len: usize = match run.length {
            Some(l) => {
                if l > 0 {
                    l as usize
                } else {
                    0
                }
            },
            None => 0,
        };
        let end: usize = if run_len < total - pos {
            pos + run_len
        } else {
            total
        };
        let mut run_text = String::new();
        let mut j = pos;
        while j < end
            invariant
                pos <= j <= end <= total,
                total == chars@.len(),
            decreases end - j,
        {
            text::push_char(&mut run_text, chars[j]);
            j += 1;
        }
        pos = end;

        // attachment placeholders carry no text worth keeping
        if run.attachment_info.is_some() || text::contains_str(run_text.as_str(), "\u{FFFC}") {
            continue;
        }
        let style_type: i32 = match &run.paragraph_style {
            Some(ps) => match ps.style_type {
                Some(st) => st,
                None => -1,
            },
            None => -1,
        };
        let indent: usize = match &run.paragraph_style {
            Some(ps) => match ps.indent_amount {
                Some(a) => {
                    if a > 0 {
                        a as usize
                    } else {
                        0
                    }
                },
                None => 0,
            },
            None => 0,
        };
        let checklist_done: Option<i32> = match &run.paragraph_style {
            Some(ps) => match &ps.checklist {
                Some(cl) => cl.done,
                None => None,
            },
            None => None,
        };
        let font_weight: i32 = match run.font_weight {
            Some(w) => w,
            None => 0,
        };
        let strikethrough: i32 = match run.strikethrough {
            Some(s) => s,
            None => 0,
        };

        let lines = text::split_char(run_text.as_str(), '\n');
        let mut li: usize = 0;
        while li < lines.len()
            decreases lines@.len() - li,
        {
            // a line break within the run ends the previous output line
            if li > 0 {
                if in_code_block && style_type != 4 {
                    output.append("```\n");
                    in_code_block = false;
                }
                output.append("\n");
                if style_type != 102 {
                    numbered_counter = 0;
                }
            }
            let line = &lines[li];
            li += 1;
            if line.as_str().unicode_len() == 0 {
                continue;
            }
            let out_len = output.as_str().unicode_len();
            let at_line_start = out_len == 0 || output.as_str().get_char(out_len - 1) == '\n';
            if at_line_start {
                let indent_prefix = text::repeat_str("  ", indent);
                if style_type == 0 && is_first_line {
                    // the first line is the note's title and gets no prefix
                    is_first_line = false;
                } else if style_type == 0 {
                    output.append(indent_prefix.as_str());
                    output.append("# ");
                } else if style_type == 1 {
                    output.append(indent_prefix.as_str());
                    output.append("## ");
                } else if style_type == 2 {
                    output.append(indent_prefix.as_str());
                    output.append("### ");
                } else if style_type == 4 {
                    if !in_code_block {
                        output.append("```\n");
                        in_code_block = true;
                    }
                } else if style_type == 100 || style_type == 101 {
                    output.append(indent_prefix.as_str());
                    output.append("- ");
                    numbered_counter = 0;
                } else if style_type == 102 {
                    if numbered_counter < u32::MAX {
                        numbered_counter = numbered_counter + 1;
                    }
                    output.append(indent_prefix.as_str());
                    output.append(text::u32_to_dec(numbered_counter).as_str());
                    output.append(". ");
                } else if style_type == 103 {
                    output.append(indent_prefix.as_str());
                    let done = match checklist_done {
                        Some(d) => d == 1,
                        None => false,
                    };
                    if done {
                        output.append("- [x] ");
                    } else {
                        output.append("- [ ] ");
                    }
                    numbered_counter = 0;
                } else {
                    if is_first_line {
                        is_first_line = false;
                    }
                }
            }
            let link_ref: Option<&str> = match &run.link {
                Some(u) => Some(u.as_str()),
                None => None,
            };
            let formatted = apply_inline_formatting(
                line.as_str(),
                font_weight,
                strikethrough,
                link_ref,
            );
            output.append(formatted.as_str());
        }
    }
    if in_code_block {
        output.append("\n```");
    }
    let result = text::trim_end(output.as_str());
    proof {
        text::lemma_trim_end_idempotent(output@);
    }
    result
}

} // verus!
