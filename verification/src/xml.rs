//! The XML building blocks of schemes, breakpoint lists and scheme
//! management files: escaping, indentation, and elements whose attributes
//! stand one per line.
use vstd::prelude::*;
use crate::smap::entries_view;
use crate::text::{chars_of, push_str, push_char, push_dec_i64, dec_int};

verus! {

/// A character as written inside XML text or an attribute value.
pub open spec fn xml_escape_char(c: char) -> Seq<char> {
    if c == '&' {
        "&amp;"@
    } else if c == '<' {
        "&lt;"@
    } else if c == '>' {
        "&gt;"@
    } else if c == '"' {
        "&quot;"@
    } else if c == '\'' {
        "&apos;"@
    } else {
        seq![c]
    }
}

/// A string as written inside XML: each character escaped in turn.
pub open spec fn xml_escape_spec(s: Seq<char>) -> Seq<char>
    decreases s.len(),
{
    if s.len() == 0 {
        Seq::empty()
    } else {
        xml_escape_spec(s.drop_last()) + xml_escape_char(s.last())
    }
}

/// Appends a string escaped for XML.
pub fn push_xml_escaped(output: &mut String, value: &str)
    ensures
        final(output)@ == old(output)@ + xml_escape_spec(value@),
{
    let chars = chars_of(value);
    let ghost start = output@;
    let mut i: usize = 0;
    while i < chars.len()
        invariant
            chars@ == value@,
            i <= chars@.len(),
            output@ == start + xml_escape_spec(chars@.take(i as int)),
        decreases chars.len() - i,
    {
        let c = chars[i];
        proof {
            assert(chars@.take(i + 1).drop_last() =~= chars@.take(i as int));
        }
        if c == '&' {
            push_str(output, "&amp;");
        } else if c == '<' {
            push_str(output, "&lt;");
        } else if c == '>' {
            push_str(output, "&gt;");
        } else if c == '"' {
            push_str(output, "&quot;");
        } else if c == '\'' {
            push_str(output, "&apos;");
        } else {
            push_char(output, c);
        }
        i = i + 1;
    }
    proof {
        assert(chars@.take(chars@.len() as int) =~= chars@);
    }
}

/// A string escaped for XML.
pub fn xml_escape(value: &str) -> (r: String)
    ensures
        r@ == xml_escape_spec(value@),
{
    let mut r = String::new();
    push_xml_escaped(&mut r, value);
    r
}

/// `n` levels of indentation, three spaces each.
pub open spec fn indent_text(n: nat) -> Seq<char>
    decreases n,
{
    if n == 0 {
        Seq::empty()
    } else {
        indent_text((n - 1) as nat) + "   "@
    }
}

/// Appends `indent` levels of indentation.
pub fn write_indent(output: &mut String, indent: usize)
    ensures
        final(output)@ == old(output)@ + indent_text(indent as nat),
{
    let ghost start = output@;
    let mut i: usize = 0;
    while i < indent
        invariant
            i <= indent,
            output@ == start + indent_text(i as nat),
        decreases indent - i,
    {
        push_str(output, "   ");
        i = i + 1;
    }
}

/// The attribute lines of an element, one per line one level deeper; the
/// last closes the start tag.
pub open spec fn attr_lines(attrs: Seq<(Seq<char>, Seq<char>)>, n: int, indent: nat) -> Seq<char>
    decreases n,
{
    if n <= 0 || n > attrs.len() {
        Seq::empty()
    } else {
        attr_lines(attrs, n - 1, indent) + indent_text(indent + 1) + attrs[n - 1].0 + " = \""@
            + attrs[n - 1].1 + "\""@ + (if n == attrs.len() {
            ">"@
        } else {
            Seq::empty()
        }) + "\n"@
    }
}

/// The start tag of an element whose attributes stand one per line.
pub open spec fn multiline_start_text(indent: nat, element: Seq<char>, attrs: Seq<(Seq<char>, Seq<char>)>) -> Seq<char> {
    indent_text(indent) + "<"@ + element + "\n"@ + attr_lines(attrs, attrs.len() as int, indent)
}

/// Appends the start tag of an element with one attribute per line.
pub fn write_multiline_start(output: &mut String, indent: usize, element: &str, attrs: &Vec<(String, String)>)
    requires
        indent < usize::MAX,
    ensures
        final(output)@ == old(output)@ + multiline_start_text(indent as nat, element@, entries_view(attrs@)),
{
    let ghost a = entries_view(attrs@);
    write_indent(output, indent);
    push_str(output, "<");
    output.append(element);
    push_str(output, "\n");
    let ghost start = output@;
    let mut i: usize = 0;
    while i < attrs.len()
        invariant
            a == entries_view(attrs@),
            indent < usize::MAX,
            i <= attrs@.len(),
            output@ == start + attr_lines(a, i as int, indent as nat),
        decreases attrs.len() - i,
    {
        write_indent(output, indent + 1);
        output.append(attrs[i].0.as_str());
        push_str(output, " = \"");
        output.append(attrs[i].1.as_str());
        push_str(output, "\"");
        if i + 1 == attrs.len() {
            push_str(output, ">");
        }
        push_str(output, "\n");
        proof {
            assert(a[i as int] == (attrs@[i as int].0@, attrs@[i as int].1@));
        }
        i = i + 1;
    }
}

/// `YES` or `NO`.
pub open spec fn bool_xml_spec(value: bool) -> Seq<char> {
    if value { "YES"@ } else { "NO"@ }
}

/// The XML word for a boolean.
pub fn bool_xml(value: bool) -> (r: &'static str)
    ensures
        r@ == bool_xml_spec(value),
{
    if value { "YES" } else { "NO" }
}

/// The closing tag of an element at an indentation.
pub open spec fn end_tag_text(indent: nat, element: Seq<char>) -> Seq<char> {
    indent_text(indent) + "</"@ + element + ">\n"@
}

/// Appends the closing tag of an element.
pub fn write_end_tag(output: &mut String, indent: usize, element: &str)
    ensures
        final(output)@ == old(output)@ + end_tag_text(indent as nat, element@),
{
    write_indent(output, indent);
    push_str(output, "</");
    output.append(element);
    push_str(output, ">\n");
}

/// The attributes of an action with nothing but a configuration; an archive
/// action also reveals its archive in the organizer.
pub open spec fn simple_action_attrs(element: Seq<char>, attribute: Seq<char>, config: Seq<char>) -> Seq<(Seq<char>, Seq<char>)> {
    if element == "ArchiveAction"@ {
        seq![(attribute, xml_escape_spec(config)), ("revealArchiveInOrganizer"@, "YES"@)]
    } else {
        seq![(attribute, xml_escape_spec(config))]
    }
}

/// Appends an action element holding only its configuration.
pub fn write_simple_action(output: &mut String, element: &str, attribute: &str, config: &str, indent: usize)
    requires
        indent < usize::MAX,
    ensures
        final(output)@ == old(output)@ + multiline_start_text(
            indent as nat,
            element@,
            simple_action_attrs(element@, attribute@, config@),
        ) + end_tag_text(indent as nat, element@),
{
    let mut attrs: Vec<(String, String)> = Vec::new();
    attrs.push((attribute.to_owned(), xml_escape(config)));
    if crate::text::str_eq(element, "ArchiveAction") {
        attrs.push(("revealArchiveInOrganizer".to_owned(), "YES".to_owned()));
    }
    proof {
        assert(entries_view(attrs@) =~= simple_action_attrs(element@, attribute@, config@));
    }
    write_multiline_start(output, indent, element, &attrs);
    write_end_tag(output, indent, element);
}

/// A buildable reference to a target of another container, on one line.
pub open spec fn external_buildable_reference_text(indent: nat, target_name: Seq<char>, container: Seq<char>) -> Seq<char> {
    let t = xml_escape_spec(target_name);
    indent_text(indent) + "<BuildableReference BuildableIdentifier=\"primary\" BlueprintIdentifier=\""@ + t
        + "\" BuildableName=\""@ + t + "\" BlueprintName=\""@ + t + "\" ReferencedContainer=\"container:"@
        + xml_escape_spec(container) + "\"/>\n"@
}

/// Appends a buildable reference to a target of another container.
pub fn write_external_buildable_reference(output: &mut String, target_name: &str, container: &str, indent: usize)
    ensures
        final(output)@ == old(output)@ + external_buildable_reference_text(indent as nat, target_name@, container@),
{
    write_indent(output, indent);
    let t = xml_escape(target_name);
    push_str(output, "<BuildableReference BuildableIdentifier=\"primary\" BlueprintIdentifier=\"");
    output.append(t.as_str());
    push_str(output, "\" BuildableName=\"");
    output.append(t.as_str());
    push_str(output, "\" BlueprintName=\"");
    output.append(t.as_str());
    push_str(output, "\" ReferencedContainer=\"container:");
    push_xml_escaped(output, container);
    push_str(output, "\"/>\n");
}

} // verus!
