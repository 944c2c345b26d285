use vstd::prelude::*;

use crate::json::{json_parse, parse_json};
use crate::manifest::{
    copy_entries, dep_entries_view, dep_manifest_from_json, dep_manifest_of_json, entries_view,
    manifest_from_json, manifest_of_json, DepEntry, DepManifest, DepManifestV, Manifest,
    ManifestV, MapEntry,
};
use crate::render::{
    diag_message, diag_text, header_spans, render_deps, render_scripts, script_list_spans,
    section_spans, spans_view, Span, Style,
};
use crate::sort::{sort_dep_entries, sort_entries, sorted_deps, sorted_entries};

verus! {

/// The way an invocation fails, after the taxonomy of failures: the manifest
/// file was absent, it could not be read, or its content was not a manifest.
#[derive(Clone, Copy, PartialEq, Eq, Structural, Debug)]
pub enum ErrorKind {
    NotFound,
    ReadError,
    ParseError,
}

/// A fatal failure: its kind, and the cause reported to the user.
#[derive(Debug)]
pub struct LoadError {
    pub kind: ErrorKind,
    pub cause: String,
}

/// The two things an invocation can be asked to list.
#[derive(Clone, Copy, PartialEq, Eq, Structural, Debug)]
pub enum Mode {
    Scripts,
    Dependencies,
}

/// Chooses the listing that the dependencies flag asks for; scripts are the
/// default.
pub fn select_mode(dependencies: bool) -> (m: Mode)
    ensures
        m == if dependencies {
            Mode::Dependencies
        } else {
            Mode::Scripts
        },
{
    if dependencies {
        Mode::Dependencies
    } else {
        Mode::Scripts
    }
}

/// The process status an invocation ends with: zero only on success.
pub fn exit_status(failed: bool) -> (r: i32)
    ensures
        r == if failed {
            1int
        } else {
            0int
        },
{
    if failed {
        1
    } else {
        0
    }
}

/// The manifest a text describes, if the text is valid JSON of the manifest
/// shape.
pub open spec fn parsed_manifest(t: Seq<char>) -> Option<ManifestV> {
    match json_parse(t) {
        Some(j) => manifest_of_json(j),
        None => None,
    }
}

/// The listing the script mode renders for a manifest: its header, then the
/// script entries in some nondecreasing name order — a permutation of the
/// manifest's script map.
pub open spec fn is_scripts_listing(mv: ManifestV, out: Seq<(Style, Seq<char>)>) -> bool {
    exists|es: Seq<(Seq<char>, Seq<char>)>|
        sorted_entries(es) && es.to_multiset() == mv.scripts.to_multiset() && out == header_spans(
            mv.name,
            mv.version,
            mv.description,
        ) + script_list_spans(es)
}

/// Loads a manifest from the text of its file.
pub fn load_manifest(text: &str) -> (r: Result<Manifest, LoadError>)
    ensures
        r is Ok <==> parsed_manifest(text@) is Some,
        r matches Ok(m) ==> parsed_manifest(text@) == Some(m@),
        r matches Err(e) ==> e.kind == ErrorKind::ParseError,
{
    let j = match parse_json(text) {
        Ok(j) => j,
        Err(cause) => {
            return Err(LoadError { kind: ErrorKind::ParseError, cause });
        },
    };
    match manifest_from_json(&j) {
        Some(m) => Ok(m),
        None => Err(
            LoadError {
                kind: ErrorKind::ParseError,
                cause: "the file does not have the manifest shape".to_owned(),
            },
        ),
    }
}

/// Lists the scripts of the manifest in a text: header line, then each
/// script's name and command, sorted ascending by name.
pub fn list_scripts(text: &str) -> (r: Result<Vec<Span>, LoadError>)
    ensures
        r is Ok <==> parsed_manifest(text@) is Some,
        r matches Ok(spans) ==> is_scripts_listing(
            parsed_manifest(text@)->Some_0,
            spans_view(spans@),
        ),
        r matches Err(e) ==> e.kind == ErrorKind::ParseError,
{
    let m = match load_manifest(text) {
        Ok(m) => m,
        Err(e) => {
            return Err(e);
        },
    };
    let sorted = sort_entries(copy_entries(&m.scripts));
    let spans = render_scripts(&m, &sorted);
    proof {
        let mv = parsed_manifest(text@)->Some_0;
        let es = entries_view(sorted@);
        assert(sorted_entries(es) && es.to_multiset() == mv.scripts.to_multiset() && spans_view(
            spans@,
        ) == header_spans(mv.name, mv.version, mv.description) + script_list_spans(es));
    }
    Ok(spans)
}

/// The view of one read result: the file's text, or the cause of the failure
/// to read it.
pub open spec fn text_view(t: Result<String, String>) -> Result<Seq<char>, Seq<char>> {
    match t {
        Ok(s) => Ok(s@),
        Err(e) => Err(e@),
    }
}

/// The views of a list of read results.
pub open spec fn texts_view(ts: Seq<Result<String, String>>) -> Seq<
    Result<Seq<char>, Seq<char>>,
> {
    ts.map_values(|t: Result<String, String>| text_view(t))
}

/// The views of a list of strings.
pub open spec fn strs_view(s: Seq<String>) -> Seq<Seq<char>> {
    s.map_values(|x: String| x@)
}

/// What reading and resolving one installed dependency's manifest yields:
/// nothing when the file could not be read, its text was not valid JSON, or
/// the JSON does not have the dependency-manifest shape.
pub open spec fn resolve_dep(t: Result<Seq<char>, Seq<char>>) -> Option<DepManifestV> {
    match t {
        Ok(s) => match json_parse(s) {
            Some(j) => dep_manifest_of_json(j),
            None => None,
        },
        Err(_) => None,
    }
}

/// Resolves the text of one installed dependency's manifest; on failure, the
/// cause to report.
fn resolve_text(t: &Result<String, String>) -> (r: Result<DepManifest, String>)
    ensures
        r matches Ok(dm) ==> resolve_dep(text_view(*t)) == Some(dm@),
        r is Err ==> resolve_dep(text_view(*t)) is None,
{
    match t {
        Ok(content) => match parse_json(content.as_str()) {
            Ok(j) => match dep_manifest_from_json(&j) {
                Some(dm) => Ok(dm),
                None => Err("the file does not have the manifest shape".to_owned()),
            },
            Err(cause) => Err(cause),
        },
        Err(cause) => Err(cause.clone()),
    }
}

/// The entries of the dependencies that resolve, in declaration order: the
/// resolved manifest's name, the declared version range, and the resolved
/// manifest's description. Dependencies that do not resolve are dropped.
pub open spec fn resolved_entries(
    decls: Seq<(Seq<char>, Seq<char>)>,
    texts: Seq<Result<Seq<char>, Seq<char>>>,
) -> Seq<(Seq<char>, Seq<char>, Option<Seq<char>>)>
    decreases decls.len(),
{
    if decls.len() == 0 || texts.len() == 0 {
        Seq::empty()
    } else {
        let rest = resolved_entries(decls.drop_last(), texts.drop_last());
        match resolve_dep(texts.last()) {
            Some(dm) => rest + seq![(dm.name, decls.last().1, dm.description)],
            None => rest,
        }
    }
}

/// The declared names of the dependencies that do not resolve, in
/// declaration order.
pub open spec fn failed_names(
    decls: Seq<(Seq<char>, Seq<char>)>,
    texts: Seq<Result<Seq<char>, Seq<char>>>,
) -> Seq<Seq<char>>
    decreases decls.len(),
{
    if decls.len() == 0 || texts.len() == 0 {
        Seq::empty()
    } else {
        let rest = failed_names(decls.drop_last(), texts.drop_last());
        match resolve_dep(texts.last()) {
            Some(dm) => rest,
            None => rest + seq![decls.last().0],
        }
    }
}

/// A message is the diagnostic for a package of a given name, whatever the
/// cause it reports.
pub open spec fn has_diag_for(msg: Seq<char>, name: Seq<char>) -> bool {
    exists|cause: Seq<char>| msg == #[trigger] diag_text(name, cause)
}

/// One diagnostic per dependency that did not resolve, in order, each naming
/// its package.
pub open spec fn diags_match(msgs: Seq<Seq<char>>, names: Seq<Seq<char>>) -> bool {
    msgs.len() == names.len() && forall|k: int|
        0 <= k < msgs.len() ==> #[trigger] has_diag_for(msgs[k], names[k])
}

/// Resolves each declared dependency against the text of its installed
/// manifest, keeping the entries that resolve and one diagnostic for each
/// that does not.
#[verifier::loop_isolation(false)]
fn resolve_list(decls: &Vec<MapEntry>, texts: &Vec<Result<String, String>>) -> (r: (
    Vec<DepEntry>,
    Vec<String>,
))
    requires
        texts@.len() == decls@.len(),
    ensures
        dep_entries_view(r.0@) == resolved_entries(entries_view(decls@), texts_view(texts@)),
        diags_match(strs_view(r.1@), failed_names(entries_view(decls@), texts_view(texts@))),
{
    let ghost dv = entries_view(decls@);
    let ghost tv = texts_view(texts@);
    let mut entries: Vec<DepEntry> = Vec::new();
    let mut diags: Vec<String> = Vec::new();
    let mut i: usize = 0;
    proof {
        assert(dep_entries_view(entries@) =~= resolved_entries(dv.take(0), tv.take(0)));
        assert(strs_view(diags@) =~= failed_names(dv.take(0), tv.take(0)));
    }
    while i < decls.len()
        invariant
            i <= decls@.len(),
            dep_entries_view(entries@) == resolved_entries(dv.take(i as int), tv.take(i as int)),
            diags_match(strs_view(diags@), failed_names(dv.take(i as int), tv.take(i as int))),
        decreases decls@.len() - i,
    {
        let ghost old_entries = dep_entries_view(entries@);
        let ghost old_diags = strs_view(diags@);
        let ghost old_names = failed_names(dv.take(i as int), tv.take(i as int));
        proof {
            assert(tv[i as int] == text_view(texts@[i as int]));
            assert(dv[i as int] == (decls@[i as int].name@, decls@[i as int].value@));
            assert(dv.take(i as int + 1).drop_last() =~= dv.take(i as int));
            assert(tv.take(i as int + 1).drop_last() =~= tv.take(i as int));
            assert(dv.take(i as int + 1).last() == dv[i as int]);
            assert(tv.take(i as int + 1).last() == tv[i as int]);
        }
        match resolve_text(&texts[i]) {
            Ok(dm) => {
                let ghost dmv = dm@;
                entries.push(
                    DepEntry {
                        name: dm.name,
                        version: decls[i].value.clone(),
                        description: dm.description,
                    },
                );
                proof {
                    assert(resolve_dep(tv[i as int]) == Some(dmv));
                    assert(dep_entries_view(entries@) =~= old_entries + seq![
                        (dmv.name, dv[i as int].1, dmv.description),
                    ]);
                    assert(dep_entries_view(entries@) =~= resolved_entries(
                        dv.take(i as int + 1),
                        tv.take(i as int + 1),
                    ));
                    assert(failed_names(dv.take(i as int + 1), tv.take(i as int + 1))
                        =~= old_names);
                    assert(diags_match(
                        strs_view(diags@),
                        failed_names(dv.take(i as int + 1), tv.take(i as int + 1)),
                    ));
                }
            },
            Err(cause) => {
                let ghost cv = cause@;
                let msg = diag_message(decls[i].name.as_str(), cause.as_str());
                let ghost mt = msg@;
                diags.push(msg);
                proof {
                    assert(resolve_dep(tv[i as int]) is None);
                    assert(dep_entries_view(entries@) =~= old_entries);
                    assert(resolved_entries(dv.take(i as int + 1), tv.take(i as int + 1))
                        =~= resolved_entries(dv.take(i as int), tv.take(i as int)));
                    let names = failed_names(dv.take(i as int + 1), tv.take(i as int + 1));
                    assert(names =~= old_names.push(dv[i as int].0));
                    assert(strs_view(diags@) =~= old_diags.push(mt));
                    assert(mt == diag_text(dv[i as int].0, cv));
                    assert(has_diag_for(mt, dv[i as int].0));
                    assert forall|k: int| 0 <= k < strs_view(diags@).len() implies #[trigger] has_diag_for(
                        strs_view(diags@)[k],
                        names[k],
                    ) by {
                        if k < old_diags.len() {
                            assert(strs_view(diags@)[k] == old_diags[k]);
                            assert(names[k] == old_names[k]);
                            assert(has_diag_for(old_diags[k], old_names[k]));
                        } else {
                            assert(strs_view(diags@)[k] == mt);
                            assert(names[k] == dv[i as int].0);
                        }
                    }
                    assert(diags_match(strs_view(diags@), names));
                }
            },
        }
        i = i + 1;
    }
    proof {
        assert(dv.take(decls@.len() as int) =~= dv);
        assert(tv.take(decls@.len() as int) =~= tv);
    }
    (entries, diags)
}

/// The outcome of the dependency mode: the diagnostics for dependencies that
/// did not resolve, in declaration order (root dependencies first), and the
/// rendered listing.
pub struct DepsReport {
    pub diagnostics: Vec<String>,
    pub listing: Vec<Span>,
}

/// A sorted permutation: the same entries, in nondecreasing name order.
pub open spec fn is_sorted_perm(
    ds: Seq<(Seq<char>, Seq<char>, Option<Seq<char>>)>,
    src: Seq<(Seq<char>, Seq<char>, Option<Seq<char>>)>,
) -> bool {
    sorted_deps(ds) && ds.to_multiset() == src.to_multiset()
}

/// The listing the dependency mode renders for a manifest and the read
/// results of its declared dependencies: header, then each dependency map as
/// a counted section holding only the entries that resolved, each section in
/// some nondecreasing name order.
pub open spec fn is_deps_listing(
    mv: ManifestV,
    dep_texts: Seq<Result<Seq<char>, Seq<char>>>,
    dev_texts: Seq<Result<Seq<char>, Seq<char>>>,
    out: Seq<(Style, Seq<char>)>,
) -> bool {
    exists|
        ds: Seq<(Seq<char>, Seq<char>, Option<Seq<char>>)>,
        devs: Seq<(Seq<char>, Seq<char>, Option<Seq<char>>)>,
    |
        {
            &&& #[trigger] is_sorted_perm(ds, resolved_entries(mv.dependencies, dep_texts))
            &&& #[trigger] is_sorted_perm(devs, resolved_entries(mv.dev_dependencies, dev_texts))
            &&& out == header_spans(mv.name, mv.version, mv.description) + section_spans(
                "Dependencies: "@,
                ds,
            ) + section_spans("Dev Dependencies: "@, devs)
        }
}

/// Lists the dependencies of a loaded manifest. `dep_texts` and `dev_texts`
/// hold, in declaration order, the text of each installed dependency's
/// manifest file, or the cause of the failure to read it. The sections count
/// and list only the dependencies that resolved; each dependency that did
/// not gets one diagnostic, in declaration order, root dependencies first.
pub fn build_dep_report(
    m: &Manifest,
    dep_texts: &Vec<Result<String, String>>,
    dev_texts: &Vec<Result<String, String>>,
) -> (r: DepsReport)
    requires
        dep_texts@.len() == m.dependencies@.len(),
        dev_texts@.len() == m.dev_dependencies@.len(),
    ensures
        is_deps_listing(m@, texts_view(dep_texts@), texts_view(dev_texts@), spans_view(r.listing@)),
        diags_match(
            strs_view(r.diagnostics@),
            failed_names(m@.dependencies, texts_view(dep_texts@)) + failed_names(
                m@.dev_dependencies,
                texts_view(dev_texts@),
            ),
        ),
{
    let (dep_entries, mut diags) = resolve_list(&m.dependencies, dep_texts);
    let (dev_entries, mut dev_diags) = resolve_list(&m.dev_dependencies, dev_texts);
    let ghost diags0 = strs_view(diags@);
    let ghost dev_diags0 = strs_view(dev_diags@);
    let ghost names0 = failed_names(m@.dependencies, texts_view(dep_texts@));
    let ghost dev_names0 = failed_names(m@.dev_dependencies, texts_view(dev_texts@));
    diags.append(&mut dev_diags);
    proof {
        assert(strs_view(diags@) =~= diags0 + dev_diags0);
        let all = names0 + dev_names0;
        assert forall|k: int| 0 <= k < strs_view(diags@).len() implies #[trigger] has_diag_for(
            strs_view(diags@)[k],
            all[k],
        ) by {
            if k < diags0.len() {
                assert(strs_view(diags@)[k] == diags0[k]);
                assert(all[k] == names0[k]);
                assert(has_diag_for(diags0[k], names0[k]));
            } else {
                let kk = k - diags0.len();
                assert(strs_view(diags@)[k] == dev_diags0[kk]);
                assert(all[k] == dev_names0[kk]);
                assert(has_diag_for(dev_diags0[kk], dev_names0[kk]));
            }
        }
    }
    let sorted_dep = sort_dep_entries(dep_entries);
    let sorted_dev = sort_dep_entries(dev_entries);
    let listing = render_deps(m, &sorted_dep, &sorted_dev);
    proof {
        let ds = dep_entries_view(sorted_dep@);
        let devs = dep_entries_view(sorted_dev@);
        assert(is_sorted_perm(ds, resolved_entries(m@.dependencies, texts_view(dep_texts@))));
        assert(is_sorted_perm(
            devs,
            resolved_entries(m@.dev_dependencies, texts_view(dev_texts@)),
        ));
        assert(spans_view(listing@) == header_spans(m@.name, m@.version, m@.description)
            + section_spans("Dependencies: "@, ds) + section_spans("Dev Dependencies: "@, devs));
    }
    DepsReport { diagnostics: diags, listing }
}

} // verus!
