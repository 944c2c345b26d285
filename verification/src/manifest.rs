use vstd::prelude::*;

use crate::json::{lookup, obj_get, Json};

verus! {

/// One entry of a manifest's string-to-string maps: a script (name to
/// command) or a declared dependency (name to version range).
pub struct MapEntry {
    pub name: String,
    pub value: String,
}

impl View for MapEntry {
    type V = (Seq<char>, Seq<char>);

    open spec fn view(&self) -> (Seq<char>, Seq<char>) {
        (self.name@, self.value@)
    }
}

/// The views of a list of map entries.
pub open spec fn entries_view(s: Seq<MapEntry>) -> Seq<(Seq<char>, Seq<char>)> {
    s.map_values(|e: MapEntry| (e.name@, e.value@))
}

/// Copies a list of map entries, entry by entry.
pub fn copy_entries(v: &Vec<MapEntry>) -> (r: Vec<MapEntry>)
    ensures
        entries_view(r@) == entries_view(v@),
{
    let mut out: Vec<MapEntry> = Vec::new();
    let mut i: usize = 0;
    proof {
        assert(entries_view(out@) =~= entries_view(v@).take(0));
    }
    while i < v.len()
        invariant
            i <= v@.len(),
            entries_view(out@) == entries_view(v@).take(i as int),
        decreases v@.len() - i,
    {
        let ghost prev = out@;
        out.push(MapEntry { name: v[i].name.clone(), value: v[i].value.clone() });
        proof {
            assert(entries_view(v@)[i as int] == (v@[i as int].name@, v@[i as int].value@));
            assert(entries_view(prev).len() == prev.len());
            assert(prev.len() == i as int);
            assert forall|j: int| 0 <= j < i + 1 implies entries_view(out@)[j] == entries_view(
                v@,
            ).take(i as int + 1)[j] by {
                assert(entries_view(v@).take(i as int + 1)[j] == entries_view(v@)[j]);
                if j < i {
                    assert(out@[j] == prev[j]);
                    assert(entries_view(out@)[j] == entries_view(prev)[j]);
                    assert(entries_view(prev)[j] == entries_view(v@).take(i as int)[j]);
                } else {
                    assert(entries_view(out@)[j] == (out@[j].name@, out@[j].value@));
                }
            }
            assert(entries_view(out@) =~= entries_view(v@).take(i as int + 1));
        }
        i = i + 1;
    }
    proof {
        assert(entries_view(v@).take(v@.len() as int) =~= entries_view(v@));
    }
    out
}

/// A project manifest, as the mathematics sees it.
#[verifier::ext_equal]
pub ghost struct ManifestV {
    pub name: Seq<char>,
    pub version: Seq<char>,
    pub description: Option<Seq<char>>,
    pub scripts: Seq<(Seq<char>, Seq<char>)>,
    pub dependencies: Seq<(Seq<char>, Seq<char>)>,
    pub dev_dependencies: Seq<(Seq<char>, Seq<char>)>,
}

/// A project manifest: the root `package.json` of a project. Absent optional
/// fields load as `None` or as empty maps.
pub struct Manifest {
    pub name: String,
    pub version: String,
    pub description: Option<String>,
    pub scripts: Vec<MapEntry>,
    pub dependencies: Vec<MapEntry>,
    pub dev_dependencies: Vec<MapEntry>,
}

impl View for Manifest {
    type V = ManifestV;

    open spec fn view(&self) -> ManifestV {
        ManifestV {
            name: self.name@,
            version: self.version@,
            description: match self.description {
                Some(d) => Some(d@),
                None => None,
            },
            scripts: entries_view(self.scripts@),
            dependencies: entries_view(self.dependencies@),
            dev_dependencies: entries_view(self.dev_dependencies@),
        }
    }
}

/// An installed dependency's own manifest, as the mathematics sees it.
#[verifier::ext_equal]
pub ghost struct DepManifestV {
    pub name: Seq<char>,
    pub description: Option<Seq<char>>,
}

/// An installed dependency's own manifest: only its name and description
/// are read.
pub struct DepManifest {
    pub name: String,
    pub description: Option<String>,
}

impl View for DepManifest {
    type V = DepManifestV;

    open spec fn view(&self) -> DepManifestV {
        DepManifestV {
            name: self.name@,
            description: match self.description {
                Some(d) => Some(d@),
                None => None,
            },
        }
    }
}

/// One dependency as listed: its resolved name, the version range declared
/// in the root manifest, and the resolved manifest's description, if any.
pub struct DepEntry {
    pub name: String,
    pub version: String,
    pub description: Option<String>,
}

impl View for DepEntry {
    type V = (Seq<char>, Seq<char>, Option<Seq<char>>);

    open spec fn view(&self) -> (Seq<char>, Seq<char>, Option<Seq<char>>) {
        (
            self.name@,
            self.version@,
            match self.description {
                Some(d) => Some(d@),
                None => None,
            },
        )
    }
}

/// The views of a list of dependency entries.
pub open spec fn dep_entries_view(s: Seq<DepEntry>) -> Seq<
    (Seq<char>, Seq<char>, Option<Seq<char>>),
> {
    s.map_values(|e: DepEntry| e@)
}

/// The pairs of a JSON object all of whose values are strings; `None` if
/// some value is not a string.
pub open spec fn str_pairs_of(fields: Seq<(String, Json)>) -> Option<
    Seq<(Seq<char>, Seq<char>)>,
>
    decreases fields.len(),
{
    if fields.len() == 0 {
        Some(Seq::empty())
    } else {
        match fields[0].1 {
            Json::Str(v) => match str_pairs_of(fields.drop_first()) {
                Some(rest) => Some(seq![(fields[0].0@, v@)] + rest),
                None => None,
            },
            _ => None,
        }
    }
}

/// A required string field: `None` unless the field is present and a string.
pub open spec fn req_str_field(fields: Seq<(String, Json)>, key: Seq<char>) -> Option<Seq<char>> {
    match lookup(fields, key) {
        Some(Json::Str(s)) => Some(s@),
        _ => None,
    }
}

/// An optional string field: absent or `null` loads as no value, a string
/// loads as that value, and any other kind of value is invalid (outer `None`).
pub open spec fn opt_str_field(fields: Seq<(String, Json)>, key: Seq<char>) -> Option<
    Option<Seq<char>>,
> {
    match lookup(fields, key) {
        None => Some(None),
        Some(Json::Null) => Some(None),
        Some(Json::Str(s)) => Some(Some(s@)),
        Some(_) => None,
    }
}

/// An optional map field: absent loads as the empty map, an object of string
/// values loads as its pairs, and anything else is invalid (`None`).
pub open spec fn map_field(fields: Seq<(String, Json)>, key: Seq<char>) -> Option<
    Seq<(Seq<char>, Seq<char>)>,
> {
    match lookup(fields, key) {
        None => Some(Seq::empty()),
        Some(Json::Obj(inner)) => str_pairs_of(inner@),
        Some(_) => None,
    }
}

/// The manifest a JSON value describes: `None` when the value does not have
/// the manifest shape (a `name` and a `version` string, and only string
/// values inside `scripts`, `dependencies` and `devDependencies`).
pub open spec fn manifest_of_json(j: Json) -> Option<ManifestV> {
    match j {
        Json::Obj(fields) => if req_str_field(fields@, "name"@) is Some && req_str_field(
            fields@,
            "version"@,
        ) is Some && opt_str_field(fields@, "description"@) is Some && map_field(
            fields@,
            "scripts"@,
        ) is Some && map_field(fields@, "dependencies"@) is Some && map_field(
            fields@,
            "devDependencies"@,
        ) is Some {
            Some(
                ManifestV {
                    name: req_str_field(fields@, "name"@)->Some_0,
                    version: req_str_field(fields@, "version"@)->Some_0,
                    description: opt_str_field(fields@, "description"@)->Some_0,
                    scripts: map_field(fields@, "scripts"@)->Some_0,
                    dependencies: map_field(fields@, "dependencies"@)->Some_0,
                    dev_dependencies: map_field(fields@, "devDependencies"@)->Some_0,
                },
            )
        } else {
            None
        },
        _ => None,
    }
}

/// The dependency manifest a JSON value describes: `None` when the value
/// does not have the shape (a `name` string; `description` optional).
pub open spec fn dep_manifest_of_json(j: Json) -> Option<DepManifestV> {
    match j {
        Json::Obj(fields) => if req_str_field(fields@, "name"@) is Some && opt_str_field(
            fields@,
            "description"@,
        ) is Some {
            Some(
                DepManifestV {
                    name: req_str_field(fields@, "name"@)->Some_0,
                    description: opt_str_field(fields@, "description"@)->Some_0,
                },
            )
        } else {
            None
        },
        _ => None,
    }
}

/// Reads an object all of whose values must be strings.
fn str_entries(fields: &Vec<(String, Json)>) -> (r: Option<Vec<MapEntry>>)
    ensures
        match r {
            Some(v) => str_pairs_of(fields@) == Some(entries_view(v@)),
            None => str_pairs_of(fields@) is None,
        },
{
    let mut out: Vec<MapEntry> = Vec::new();
    let mut i: usize = 0;
    proof {
        assert(fields@.skip(0) =~= fields@);
        assert(entries_view(out@) =~= Seq::<(Seq<char>, Seq<char>)>::empty());
    }
    while i < fields.len()
        invariant
            i <= fields@.len(),
            str_pairs_of(fields@) is Some <==> str_pairs_of(fields@.skip(i as int)) is Some,
            str_pairs_of(fields@) matches Some(all) ==> str_pairs_of(fields@.skip(i as int))
                matches Some(rest) && all == entries_view(out@) + rest,
        decreases fields@.len() - i,
    {
        proof {
            assert(fields@.skip(i as int).len() == fields@.len() - i);
            assert(fields@.skip(i as int)[0] == fields@[i as int]);
            assert(fields@.skip(i as int).drop_first() =~= fields@.skip(i as int + 1));
        }
        match &fields[i].1 {
            Json::Str(v) => {
                let ghost prev = out@;
                out.push(MapEntry { name: fields[i].0.clone(), value: v.clone() });
                proof {
                    assert(entries_view(out@) =~= entries_view(prev) + seq![
                        (fields@[i as int].0@, fields@[i as int].1->Str_0@),
                    ]);
                }
            },
            _ => {
                return None;
            },
        }
        i = i + 1;
    }
    proof {
        assert(fields@.skip(i as int).len() == 0);
        assert(str_pairs_of(fields@.skip(i as int)) == Some(Seq::<(Seq<char>, Seq<char>)>::empty()));
        if str_pairs_of(fields@) is Some {
            assert(str_pairs_of(fields@)->Some_0 =~= entries_view(out@));
        }
    }
    Some(out)
}

/// Reads a manifest's map field (`scripts`, `dependencies` or
/// `devDependencies`): absent means empty.
fn map_entries(fields: &Vec<(String, Json)>, key: &str) -> (r: Option<Vec<MapEntry>>)
    ensures
        match r {
            Some(v) => map_field(fields@, key@) == Some(entries_view(v@)),
            None => map_field(fields@, key@) is None,
        },
{
    match obj_get(fields, key) {
        None => {
            let out: Vec<MapEntry> = Vec::new();
            proof {
                assert(entries_view(out@) =~= Seq::<(Seq<char>, Seq<char>)>::empty());
            }
            Some(out)
        },
        Some(Json::Obj(inner)) => str_entries(inner),
        Some(_) => None,
    }
}

/// Reads the manifest a JSON value describes.
pub fn manifest_from_json(j: &Json) -> (r: Option<Manifest>)
    ensures
        match r {
            Some(m) => manifest_of_json(*j) == Some(m@),
            None => manifest_of_json(*j) is None,
        },
{
    let fields = match j {
        Json::Obj(fields) => fields,
        _ => {
            return None;
        },
    };
    let name = match obj_get(fields, "name") {
        Some(Json::Str(s)) => s.clone(),
        _ => {
            return None;
        },
    };
    let version = match obj_get(fields, "version") {
        Some(Json::Str(s)) => s.clone(),
        _ => {
            return None;
        },
    };
    let description = match obj_get(fields, "description") {
        None => None,
        Some(Json::Null) => None,
        Some(Json::Str(s)) => Some(s.clone()),
        Some(_) => {
            return None;
        },
    };
    let scripts = match map_entries(fields, "scripts") {
        Some(v) => v,
        None => {
            return None;
        },
    };
    let dependencies = match map_entries(fields, "dependencies") {
        Some(v) => v,
        None => {
            return None;
        },
    };
    let dev_dependencies = match map_entries(fields, "devDependencies") {
        Some(v) => v,
        None => {
            return None;
        },
    };
    let m = Manifest { name, version, description, scripts, dependencies, dev_dependencies };
    proof {
        assert(manifest_of_json(*j)->Some_0 =~= m@);
    }
    Some(m)
}

/// Reads the dependency manifest a JSON value describes.
pub fn dep_manifest_from_json(j: &Json) -> (r: Option<DepManifest>)
    ensures
        match r {
            Some(m) => dep_manifest_of_json(*j) == Some(m@),
            None => dep_manifest_of_json(*j) is None,
        },
{
    let fields = match j {
        Json::Obj(fields) => fields,
        _ => {
            return None;
        },
    };
    let name = match obj_get(fields, "name") {
        Some(Json::Str(s)) => s.clone(),
        _ => {
            return None;
        },
    };
    let description = match obj_get(fields, "description") {
        None => None,
        Some(Json::Null) => None,
        Some(Json::Str(s)) => Some(s.clone()),
        Some(_) => {
            return None;
        },
    };
    let m = DepManifest { name, description };
    proof {
        assert(dep_manifest_of_json(*j)->Some_0 =~= m@);
    }
    Some(m)
}

} // verus!
