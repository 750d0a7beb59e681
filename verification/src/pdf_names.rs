//! The PDF names through which arrowheads and text fonts survive a save and
//! a re-open (the `/LE` line endings of `/Line` annotations and the
//! `/BaseFont` of the standard Type 1 fonts), and the escaping of text in
//! PDF literal strings.
use vstd::prelude::*;

use crate::annotation::ArrowEnds;
use crate::text::same_text;

verus! {

/// The bytes of the PDF name `None` (a plain line ending).
pub open spec fn none_name() -> Seq<u8> {
    seq![78u8, 111u8, 110u8, 101u8]
}

/// The bytes of the PDF name `OpenArrow` (the conventional arrowhead).
pub open spec fn open_arrow_name() -> Seq<u8> {
    seq![79u8, 112u8, 101u8, 110u8, 65u8, 114u8, 114u8, 111u8, 119u8]
}

/// The `/LE` pair (start ending, end ending) written for `ends`.
pub open spec fn line_endings_for(ends: ArrowEnds) -> (Seq<u8>, Seq<u8>) {
    match ends {
        ArrowEnds::NoHeads => (none_name(), none_name()),
        ArrowEnds::End => (none_name(), open_arrow_name()),
        ArrowEnds::Both => (open_arrow_name(), open_arrow_name()),
    }
}

/// An `/LE` entry draws a head when it is a name other than `None`.
pub open spec fn draws_head(entry: Option<Seq<u8>>) -> bool {
    match entry {
        Some(n) => n != none_name(),
        None => false,
    }
}

/// The arrowheads read back from an `/LE` array given as its two entries
/// (each `None` when not a name), or `None` when the array is missing or
/// does not have two entries. A head at the start alone is odd and is read
/// as a head at the end.
pub open spec fn ends_from_line_endings(le: Option<(Option<Seq<u8>>, Option<Seq<u8>>)>) -> ArrowEnds {
    match le {
        None => ArrowEnds::End,
        Some((s, e)) => {
            let start = draws_head(s);
            let end = draws_head(e);
            if start && end {
                ArrowEnds::Both
            } else if start || end {
                ArrowEnds::End
            } else {
                ArrowEnds::NoHeads
            }
        },
    }
}

fn none_bytes() -> (v: Vec<u8>)
    ensures
        v@ == none_name(),
{
    let v = vec![78u8, 111u8, 110u8, 101u8];
    proof {
        assert(v@ =~= none_name());
    }
    v
}

fn open_arrow_bytes() -> (v: Vec<u8>)
    ensures
        v@ == open_arrow_name(),
{
    let v = vec![79u8, 112u8, 101u8, 110u8, 65u8, 114u8, 114u8, 111u8, 119u8];
    proof {
        assert(v@ =~= open_arrow_name());
    }
    v
}

/// The `/LE` names (start, end) to write for an arrow with `ends`.
pub fn line_ending_names(ends: ArrowEnds) -> (r: (Vec<u8>, Vec<u8>))
    ensures
        (r.0@, r.1@) == line_endings_for(ends),
{
    match ends {
        ArrowEnds::NoHeads => (none_bytes(), none_bytes()),
        ArrowEnds::End => (none_bytes(), open_arrow_bytes()),
        ArrowEnds::Both => (open_arrow_bytes(), open_arrow_bytes()),
    }
}

fn is_head(entry: Option<&[u8]>) -> (b: bool)
    ensures
        b == draws_head(
            match entry {
                Some(n) => Some(n@),
                None => None,
            },
        ),
{
    match entry {
        None => false,
        Some(n) => {
            let same = n.len() == 4 && n[0] == 78 && n[1] == 111 && n[2] == 110 && n[3] == 101;
            proof {
                if same {
                    assert(n@ =~= none_name());
                }
            }
            !same
        },
    }
}

/// The arrowheads of a `/Line` annotation read back from its `/LE` entries.
pub fn arrow_ends_from_line_endings(le: Option<(Option<&[u8]>, Option<&[u8]>)>) -> (ends: ArrowEnds)
    ensures
        ends == ends_from_line_endings(
            match le {
                None => None,
                Some((s, e)) => Some(
                    (
                        match s {
                            Some(n) => Some(n@),
                            None => None,
                        },
                        match e {
                            Some(n) => Some(n@),
                            None => None,
                        },
                    ),
                ),
            },
        ),
{
    match le {
        None => ArrowEnds::End,
        Some((s, e)) => {
            let start = is_head(s);
            let end = is_head(e);
            if start && end {
                ArrowEnds::Both
            } else if start || end {
                ArrowEnds::End
            } else {
                ArrowEnds::NoHeads
            }
        },
    }
}

/// Arrowheads survive a save and a re-open: reading back the `/LE` names
/// written for `ends` gives `ends`.
pub proof fn lemma_line_endings_round_trip(ends: ArrowEnds)
    ensures
        ends_from_line_endings(Some((Some(line_endings_for(ends).0), Some(line_endings_for(ends).1))))
            == ends,
{
    assert(open_arrow_name() != none_name()) by {
        assert(open_arrow_name().len() != none_name().len());
    }
}

/// The standard Type 1 font written for a text annotation in `family`
/// (Times and Courier by their names, everything else as Helvetica).
pub open spec fn base_font_for(family: Seq<char>) -> Seq<char> {
    if family == "Times"@ || family == "Times-Roman"@ || family == "Times Roman"@ {
        "Times-Roman"@
    } else if family == "Courier"@ {
        "Courier"@
    } else {
        "Helvetica"@
    }
}

/// The family shown for a text annotation whose appearance uses the Type 1
/// font `base` (any Times or Courier face; everything else is Helvetica).
pub open spec fn family_for(base: Seq<char>) -> Seq<char> {
    if base == "Times-Roman"@ || base == "Times-Bold"@ || base == "Times-Italic"@ || base
        == "Times-BoldItalic"@ {
        "Times"@
    } else if base == "Courier"@ || base == "Courier-Bold"@ || base == "Courier-Oblique"@ || base
        == "Courier-BoldOblique"@ {
        "Courier"@
    } else {
        "Helvetica"@
    }
}

/// The `/BaseFont` to write for a text annotation in `family`.
pub fn base_font_for_family(family: &str) -> (b: &'static str)
    ensures
        b@ == base_font_for(family@),
{
    if same_text(family, "Times") || same_text(family, "Times-Roman") || same_text(family, "Times Roman") {
        "Times-Roman"
    } else if same_text(family, "Courier") {
        "Courier"
    } else {
        "Helvetica"
    }
}

/// The UI family of a text annotation whose appearance uses `base_font`.
pub fn family_for_base_font(base_font: &str) -> (f: &'static str)
    ensures
        f@ == family_for(base_font@),
{
    if same_text(base_font, "Times-Roman") || same_text(base_font, "Times-Bold") || same_text(
        base_font,
        "Times-Italic",
    ) || same_text(base_font, "Times-BoldItalic") {
        "Times"
    } else if same_text(base_font, "Courier") || same_text(base_font, "Courier-Bold") || same_text(
        base_font,
        "Courier-Oblique",
    ) || same_text(base_font, "Courier-BoldOblique") {
        "Courier"
    } else {
        "Helvetica"
    }
}

/// A text annotation's family survives a save and a re-open: each offered
/// family (and the Times spellings the writer accepts) reads back as the
/// family it stands for, and any other family reads back as Helvetica.
pub proof fn lemma_font_family_round_trip(family: Seq<char>)
    ensures
        family_for(base_font_for(family)) == if family == "Times"@ || family == "Times-Roman"@
            || family == "Times Roman"@ {
            "Times"@
        } else if family == "Courier"@ {
            "Courier"@
        } else {
            "Helvetica"@
        },
{
    reveal_strlit("Times-Roman");
    reveal_strlit("Times-Bold");
    reveal_strlit("Times-Italic");
    reveal_strlit("Times-BoldItalic");
    reveal_strlit("Courier");
    reveal_strlit("Courier-Bold");
    reveal_strlit("Courier-Oblique");
    reveal_strlit("Courier-BoldOblique");
    reveal_strlit("Helvetica");
    assert("Courier"@ != "Times-Roman"@ && "Courier"@ != "Times-Bold"@ && "Courier"@ != "Times-Italic"@ && "Courier"@
        != "Times-BoldItalic"@) by {
        assert("Courier"@[0] != "Times-Roman"@[0]);
    }
    assert("Helvetica"@ != "Times-Roman"@ && "Helvetica"@ != "Times-Bold"@ && "Helvetica"@ != "Times-Italic"@
        && "Helvetica"@ != "Times-BoldItalic"@ && "Helvetica"@ != "Courier"@ && "Helvetica"@ != "Courier-Bold"@
        && "Helvetica"@ != "Courier-Oblique"@ && "Helvetica"@ != "Courier-BoldOblique"@) by {
        assert("Helvetica"@[0] != "Times-Roman"@[0]);
        assert("Helvetica"@[0] != "Courier"@[0]);
    }
}

/// Calls `String::push`. Trusted to append `c` to `s`.
#[verifier::external_body]
fn push_char(s: &mut String, c: char)
    ensures
        final(s)@ == old(s)@.push(c),
{
    s.push(c);
}

/// How one character of text is written inside a PDF literal string:
/// backslash and both parentheses are escaped with a backslash, carriage
/// returns are dropped, everything else is written as is.
pub open spec fn escaped_char(c: char) -> Seq<char> {
    if c == '\\' {
        seq!['\\', '\\']
    } else if c == '(' {
        seq!['\\', '(']
    } else if c == ')' {
        seq!['\\', ')']
    } else if c == '\r' {
        Seq::empty()
    } else {
        seq![c]
    }
}

/// A line of text as written inside a PDF literal string.
pub open spec fn escaped(s: Seq<char>) -> Seq<char>
    decreases s.len(),
{
    if s.len() == 0 {
        Seq::empty()
    } else {
        escaped(s.drop_last()) + escaped_char(s.last())
    }
}

/// The body of the PDF literal string `( ... )` that shows `line`.
pub fn escape_pdf_literal(line: &str) -> (r: String)
    ensures
        r@ == escaped(line@),
{
    let n = line.unicode_len();
    let mut out = String::new();
    let mut i: usize = 0;
    proof {
        assert(line@.subrange(0, 0) =~= Seq::<char>::empty());
    }
    while i < n
        invariant
            n == line@.len(),
            i <= n,
            out@ == escaped(line@.subrange(0, i as int)),
        decreases n - i,
    {
        let c = line.get_char(i);
        let ghost before = out@;
        proof {
            reveal_strlit("\\\\");
            reveal_strlit("\\(");
            reveal_strlit("\\)");
        }
        if c == '\\' {
            out.append("\\\\");
        } else if c == '(' {
            out.append("\\(");
        } else if c == ')' {
            out.append("\\)");
        } else if c == '\r' {
        } else {
            push_char(&mut out, c);
        }
        proof {
            assert(line@.subrange(0, i + 1).drop_last() =~= line@.subrange(0, i as int));
            assert(line@.subrange(0, i + 1).last() == c);
            assert(out@ =~= before + escaped_char(c));
        }
        i = i + 1;
    }
    proof {
        assert(line@.subrange(0, n as int) =~= line@);
    }
    out
}

} // verus!
