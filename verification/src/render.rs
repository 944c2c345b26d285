use vstd::prelude::*;

use crate::manifest::{dep_entries_view, entries_view, DepEntry, Manifest, MapEntry};
use crate::text::dec_str;

verus! {

/// The color role of a piece of rendered output. The mapping from roles to
/// concrete terminal colors is left to the caller that owns the terminal.
#[derive(Clone, Copy, PartialEq, Eq, Structural, Debug)]
pub enum Style {
    /// Header text: the project name and version line.
    Emphasis,
    /// A highlighted name, such as a script or dependency name.
    Accent,
    /// A summary label such as the dependency count heading.
    Label,
    /// Dimmed text: a declared version range.
    Muted,
    /// Ordinary text: commands, counts, descriptions.
    Neutral,
}

/// One fragment of styled output: a run of text drawn in a single style.
#[derive(Debug)]
pub struct Span {
    pub style: Style,
    pub text: String,
}

/// A sequence of spans, viewed as pairs of style and text.
pub open spec fn spans_view(s: Seq<Span>) -> Seq<(Style, Seq<char>)> {
    s.map_values(|sp: Span| (sp.style, sp.text@))
}

/// The header line: name and version, then ` - description` when a
/// description is present, then the line break.
pub open spec fn header_spans(
    name: Seq<char>,
    version: Seq<char>,
    description: Option<Seq<char>>,
) -> Seq<(Style, Seq<char>)> {
    let base = seq![
        (Style::Emphasis, name),
        (Style::Emphasis, " "@),
        (Style::Emphasis, version),
    ];
    let described = match description {
        Some(d) => base + seq![(Style::Emphasis, " - "@), (Style::Emphasis, d)],
        None => base,
    };
    described + seq![(Style::Emphasis, "\n"@)]
}

/// One script's block: its name on one line, its command indented on the
/// next.
pub open spec fn script_block(e: (Seq<char>, Seq<char>)) -> Seq<(Style, Seq<char>)> {
    seq![
        (Style::Accent, e.0),
        (Style::Accent, "\n"@),
        (Style::Neutral, "    "@),
        (Style::Neutral, e.1),
        (Style::Neutral, "\n"@),
    ]
}

/// The blocks of a script list, in the order given.
pub open spec fn script_list_spans(es: Seq<(Seq<char>, Seq<char>)>) -> Seq<(Style, Seq<char>)>
    decreases es.len(),
{
    if es.len() == 0 {
        Seq::empty()
    } else {
        script_list_spans(es.drop_last()) + script_block(es.last())
    }
}

/// One dependency's block: name and declared version range on one line, the
/// description indented on the next when there is one.
pub open spec fn dep_block(d: (Seq<char>, Seq<char>, Option<Seq<char>>)) -> Seq<
    (Style, Seq<char>),
> {
    let line = seq![
        (Style::Accent, d.0),
        (Style::Muted, " "@),
        (Style::Muted, d.1),
        (Style::Muted, "\n"@),
    ];
    match d.2 {
        Some(t) => line + seq![
            (Style::Neutral, "    "@),
            (Style::Neutral, t),
            (Style::Neutral, "\n"@),
        ],
        None => line,
    }
}

/// The blocks of a dependency list, in the order given.
pub open spec fn dep_list_spans(ds: Seq<(Seq<char>, Seq<char>, Option<Seq<char>>)>) -> Seq<
    (Style, Seq<char>),
>
    decreases ds.len(),
{
    if ds.len() == 0 {
        Seq::empty()
    } else {
        dep_list_spans(ds.drop_last()) + dep_block(ds.last())
    }
}

/// A dependency section: its label, the count of listed entries — the
/// entries that resolved, not the entries declared — and the entries.
pub open spec fn section_spans(
    label: Seq<char>,
    ds: Seq<(Seq<char>, Seq<char>, Option<Seq<char>>)>,
) -> Seq<(Style, Seq<char>)> {
    seq![(Style::Label, label), (Style::Neutral, dec_str(ds.len())), (Style::Neutral, "\n"@)]
        + dep_list_spans(ds)
}

fn push_span(out: &mut Vec<Span>, style: Style, text: String)
    ensures
        spans_view(final(out)@) == spans_view(old(out)@).push((style, text@)),
{
    let ghost t = text@;
    out.push(Span { style, text });
    proof {
        assert(spans_view(out@) =~= spans_view(old(out)@).push((style, t)));
    }
}

fn push_lit(out: &mut Vec<Span>, style: Style, text: &str)
    ensures
        spans_view(final(out)@) == spans_view(old(out)@).push((style, text@)),
{
    push_span(out, style, text.to_owned());
}

/// Renders the header line of both listings.
fn render_header(out: &mut Vec<Span>, m: &Manifest)
    ensures
        spans_view(final(out)@) == spans_view(old(out)@) + header_spans(
            m@.name,
            m@.version,
            m@.description,
        ),
{
    push_span(out, Style::Emphasis, m.name.clone());
    push_lit(out, Style::Emphasis, " ");
    push_span(out, Style::Emphasis, m.version.clone());
    match &m.description {
        Some(d) => {
            push_lit(out, Style::Emphasis, " - ");
            push_span(out, Style::Emphasis, d.clone());
        },
        None => {},
    }
    push_lit(out, Style::Emphasis, "\n");
    proof {
        assert(spans_view(out@) =~= spans_view(old(out)@) + header_spans(
            m@.name,
            m@.version,
            m@.description,
        ));
    }
}

/// Renders the script listing: header, then one block per entry, in the
/// order given.
#[verifier::loop_isolation(false)]
pub fn render_scripts(m: &Manifest, entries: &Vec<MapEntry>) -> (r: Vec<Span>)
    ensures
        spans_view(r@) == header_spans(m@.name, m@.version, m@.description) + script_list_spans(
            entries_view(entries@),
        ),
{
    let ghost ev = entries_view(entries@);
    let mut out: Vec<Span> = Vec::new();
    proof {
        assert(spans_view(out@) =~= Seq::<(Style, Seq<char>)>::empty());
    }
    render_header(&mut out, m);
    let ghost head = spans_view(out@);
    proof {
        assert(script_list_spans(ev.take(0)) =~= Seq::<(Style, Seq<char>)>::empty());
        assert(head + script_list_spans(ev.take(0)) =~= head);
    }
    let mut i: usize = 0;
    while i < entries.len()
        invariant
            i <= entries@.len(),
            spans_view(out@) == head + script_list_spans(ev.take(i as int)),
        decreases entries@.len() - i,
    {
        let ghost before = spans_view(out@);
        push_span(&mut out, Style::Accent, entries[i].name.clone());
        push_lit(&mut out, Style::Accent, "\n");
        push_lit(&mut out, Style::Neutral, "    ");
        push_span(&mut out, Style::Neutral, entries[i].value.clone());
        push_lit(&mut out, Style::Neutral, "\n");
        proof {
            assert(ev[i as int] == (entries@[i as int].name@, entries@[i as int].value@));
            assert(spans_view(out@) =~= before + script_block(ev[i as int]));
            assert(ev.take(i as int + 1).drop_last() =~= ev.take(i as int));
            assert(ev.take(i as int + 1).last() == ev[i as int]);
            assert(spans_view(out@) =~= head + script_list_spans(ev.take(i as int + 1)));
        }
        i = i + 1;
    }
    proof {
        assert(ev.take(entries@.len() as int) =~= ev);
    }
    out
}

/// Renders one dependency section into `out`.
#[verifier::loop_isolation(false)]
fn render_section(out: &mut Vec<Span>, label: &str, ds: &Vec<DepEntry>)
    ensures
        spans_view(final(out)@) == spans_view(old(out)@) + section_spans(
            label@,
            dep_entries_view(ds@),
        ),
{
    let ghost dv = dep_entries_view(ds@);
    push_lit(out, Style::Label, label);
    push_span(out, Style::Neutral, crate::text::dec_string(ds.len()));
    push_lit(out, Style::Neutral, "\n");
    let ghost head = spans_view(out@);
    proof {
        assert(dep_list_spans(dv.take(0)) =~= Seq::<(Style, Seq<char>)>::empty());
        assert(head + dep_list_spans(dv.take(0)) =~= head);
    }
    let mut i: usize = 0;
    while i < ds.len()
        invariant
            i <= ds@.len(),
            spans_view(out@) == head + dep_list_spans(dv.take(i as int)),
        decreases ds@.len() - i,
    {
        let ghost before = spans_view(out@);
        push_span(out, Style::Accent, ds[i].name.clone());
        push_lit(out, Style::Muted, " ");
        push_span(out, Style::Muted, ds[i].version.clone());
        push_lit(out, Style::Muted, "\n");
        match &ds[i].description {
            Some(t) => {
                push_lit(out, Style::Neutral, "    ");
                push_span(out, Style::Neutral, t.clone());
                push_lit(out, Style::Neutral, "\n");
            },
            None => {},
        }
        proof {
            assert(dv[i as int] == ds@[i as int]@);
            assert(spans_view(out@) =~= before + dep_block(dv[i as int]));
            assert(dv.take(i as int + 1).drop_last() =~= dv.take(i as int));
            assert(dv.take(i as int + 1).last() == dv[i as int]);
            assert(spans_view(out@) =~= head + dep_list_spans(dv.take(i as int + 1)));
        }
        i = i + 1;
    }
    proof {
        assert(dv.take(ds@.len() as int) =~= dv);
        assert(spans_view(out@) =~= spans_view(old(out)@) + section_spans(label@, dv));
    }
}

/// Renders the dependency listing: header, then the `dependencies` section,
/// then the `devDependencies` section, each with its own count.
pub fn render_deps(m: &Manifest, deps: &Vec<DepEntry>, dev_deps: &Vec<DepEntry>) -> (r: Vec<Span>)
    ensures
        spans_view(r@) == header_spans(m@.name, m@.version, m@.description) + section_spans(
            "Dependencies: "@,
            dep_entries_view(deps@),
        ) + section_spans("Dev Dependencies: "@, dep_entries_view(dev_deps@)),
{
    let mut out: Vec<Span> = Vec::new();
    proof {
        assert(spans_view(out@) =~= Seq::<(Style, Seq<char>)>::empty());
    }
    render_header(&mut out, m);
    render_section(&mut out, "Dependencies: ", deps);
    render_section(&mut out, "Dev Dependencies: ", dev_deps);
    proof {
        assert(spans_view(out@) =~= header_spans(m@.name, m@.version, m@.description)
            + section_spans("Dependencies: "@, dep_entries_view(deps@)) + section_spans(
            "Dev Dependencies: "@,
            dep_entries_view(dev_deps@),
        ));
    }
    out
}

/// The text of the message reported once when an invocation fails.
pub open spec fn error_text(cause: Seq<char>) -> Seq<char> {
    "error occurred: "@ + cause
}

/// The text of the one-line diagnostic for a dependency whose manifest could
/// not be read.
pub open spec fn diag_text(name: Seq<char>, cause: Seq<char>) -> Seq<char> {
    "error reading node_modules/"@ + name + "/package.json: "@ + cause
}

/// The message reported once when an invocation fails.
pub fn error_message(cause: &str) -> (r: String)
    ensures
        r@ == error_text(cause@),
{
    let mut s = "error occurred: ".to_owned();
    s.append(cause);
    s
}

/// The one-line diagnostic written when a declared dependency's own manifest
/// cannot be read; it names the package and the cause.
pub fn diag_message(name: &str, cause: &str) -> (r: String)
    ensures
        r@ == diag_text(name@, cause@),
{
    let mut s = "error reading node_modules/".to_owned();
    s.append(name);
    s.append("/package.json: ");
    s.append(cause);
    s
}

} // verus!
