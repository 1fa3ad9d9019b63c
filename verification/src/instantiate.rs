//! The instantiation engine: computes, for an example and a caller's
//! parameters, the exact ordered list of filesystem actions that
//! materialises the template — the recursive tree copy with exclusion rules
//! and name/content rewriting, the adapter binary copy, and the shared
//! interface-fragment copies — together with the rendered instruction text.

use crate::catalog::lookup_dir;
use crate::catalog::lookup_file;
use crate::catalog::entry_name;
use crate::catalog::get_dir;
use crate::catalog::get_file;
use crate::catalog::join_path;
use crate::catalog::Act;
use crate::catalog::CatalogDir;
use crate::catalog::CatalogEntry;
use crate::catalog::FsAction;
use crate::model::tier_name_of;
use crate::model::tier_of;
use crate::model::Example;
use crate::model::ExampleParameters;
use crate::strutil::contains_str;
use crate::strutil::decode_text;
use crate::strutil::str_eq;
use crate::transform::file_name_transform;
use crate::transform::file_name_transform_spec;
use crate::transform::transform;
use crate::transform::transform_spec;
use vstd::prelude::*;
use vstd::slice::slice_to_vec;
use vstd::string::StrSliceExecFns;
use vstd::string::StringSliceAdditionalSpecFns;
use vstd::utf8::decode_utf8;
use vstd::utf8::encode_utf8;
use vstd::utf8::valid_utf8;

verus! {

/// The token-substitution pass under a parameter record.
pub open spec fn tr(s: Seq<char>, p: ExampleParameters) -> Seq<char> {
    transform_spec(s, p.template_name@, p.package_name.namespace@, p.package_name.name@)
}

/// The entry-name substitution pass under a parameter record.
pub open spec fn ftr(s: Seq<char>, p: ExampleParameters) -> Seq<char> {
    file_name_transform_spec(s, p.template_name@, p.package_name.namespace@, p.package_name.name@)
}

/// The bytes written for a copied file: rewritten text when the file is not
/// transform-excluded and decodes as UTF-8, the raw bytes otherwise.
pub open spec fn file_out_data(contents: Seq<u8>, p: ExampleParameters, do_transform: bool) -> Seq<
    u8,
> {
    if do_transform && valid_utf8(contents) {
        encode_utf8(tr(decode_utf8(contents), p))
    } else {
        contents
    }
}

/// The planned actions for one directory of the template tree: create the
/// target directory, then handle each entry in order.
pub open spec fn dir_plan(
    d: CatalogDir,
    target: Seq<char>,
    p: ExampleParameters,
    ex: Seq<Seq<char>>,
    tex: Seq<Seq<char>>,
    root: bool,
) -> Seq<Act>
    decreases d, 0int,
{
    seq![Act::MkDir { path: target }] + entries_plan(d.entries@, 0, target, p, ex, tex, root)
}

/// The planned actions for the entries of a template directory from
/// position `i` on: excluded names are skipped, and the example's own
/// metadata descriptor is skipped at the root level; a directory recurses
/// under its rewritten name, a file is written under its rewritten name.
pub open spec fn entries_plan(
    es: Seq<CatalogEntry>,
    i: int,
    target: Seq<char>,
    p: ExampleParameters,
    ex: Seq<Seq<char>>,
    tex: Seq<Seq<char>>,
    root: bool,
) -> Seq<Act>
    decreases es, es.len() - i,
{
    if i < 0 || i >= es.len() {
        Seq::<Act>::empty()
    } else {
        let name = entry_name(es[i]);
        let rest = entries_plan(es, i + 1, target, p, ex, tex, root);
        if ex.contains(name) || (root && name == "metadata.json"@) {
            rest
        } else {
            (match es[i] {
                CatalogEntry::Dir(sub) => dir_plan(
                    sub,
                    target + seq!['/'] + tr(name, p),
                    p,
                    ex,
                    tex,
                    false,
                ),
                CatalogEntry::File(f) => seq![
                    Act::WriteFile {
                        path: target + seq!['/'] + ftr(name, p),
                        contents: file_out_data(f.contents@, p, !tex.contains(name)),
                    },
                ],
            }) + rest
        }
    }
}

/// The write actions for the files of a fragment directory, from position
/// `i` on; subdirectories are not copied.
pub open spec fn files_plan(es: Seq<CatalogEntry>, i: int, dest: Seq<char>) -> Seq<Act>
    decreases es.len() - i,
{
    if i < 0 || i >= es.len() {
        Seq::<Act>::empty()
    } else {
        (match es[i] {
            CatalogEntry::File(f) => seq![
                Act::WriteFile { path: dest + seq!['/'] + f.name@, contents: f.contents@ },
            ],
            CatalogEntry::Dir(_) => Seq::<Act>::empty(),
        }) + files_plan(es, i + 1, dest)
    }
}

/// The copies of one fragment directory into each configured target, from
/// target position `j` on.
pub open spec fn dep_targets_plan(
    dd: CatalogDir,
    dep: Seq<char>,
    targets: Seq<Seq<char>>,
    j: int,
    out_root: Seq<char>,
) -> Seq<Act>
    decreases targets.len() - j,
{
    if j < 0 || j >= targets.len() {
        Seq::<Act>::empty()
    } else {
        let dest = out_root + seq!['/'] + targets[j] + seq!['/'] + dep;
        (seq![Act::MkDir { path: dest }] + files_plan(dd.entries@, 0, dest)) + dep_targets_plan(
            dd,
            dep,
            targets,
            j + 1,
            out_root,
        )
    }
}

/// The first declared fragment directory, from position `k` on, that the
/// fragments tree does not hold.
pub open spec fn first_missing_dep(wit: CatalogDir, deps: Seq<Seq<char>>, k: int) -> Option<
    Seq<char>,
>
    decreases deps.len() - k,
{
    if k < 0 || k >= deps.len() {
        None
    } else if lookup_dir(wit, seq![deps[k]]) is None {
        Some(deps[k])
    } else {
        first_missing_dep(wit, deps, k + 1)
    }
}

/// The copies of every declared fragment directory, from position `k` on,
/// into every configured target.
pub open spec fn wit_acts(
    wit: CatalogDir,
    deps: Seq<Seq<char>>,
    k: int,
    targets: Seq<Seq<char>>,
    out_root: Seq<char>,
) -> Seq<Act>
    decreases deps.len() - k,
{
    if k < 0 || k >= deps.len() {
        Seq::<Act>::empty()
    } else {
        (match lookup_dir(wit, seq![deps[k]]) {
            Some(dd) => dep_targets_plan(dd, deps[k], targets, 0, out_root),
            None => Seq::<Act>::empty(),
        }) + wit_acts(wit, deps, k + 1, targets, out_root)
    }
}

/// The adapter-copy actions: create the adapters directory for the
/// language's tier, then write the adapter binary into it.
pub open spec fn adapter_acts(
    af_contents: Seq<u8>,
    ap: Seq<Seq<char>>,
    lang_tier: Seq<char>,
    out_root: Seq<char>,
) -> Seq<Act> {
    let parent = out_root + seq!['/'] + "adapters"@ + seq!['/'] + lang_tier;
    seq![
        Act::MkDir { path: parent },
        Act::WriteFile { path: parent + seq!['/'] + ap.last(), contents: af_contents },
    ]
}

/// The fragment target directories an example asks for: its explicit list,
/// or the single conventional location.
pub open spec fn wit_targets_of(e: crate::model::ExampleV) -> Seq<Seq<char>> {
    match e.wit_deps_targets {
        Some(ts) => ts,
        None => seq!["wit/deps"@],
    }
}

/// The full instantiation outcome: the ordered action plan and the rendered
/// instruction text, or the first catalog path the plan needs that does not
/// exist.
pub open spec fn instantiate_spec(
    examples: CatalogDir,
    adapters: CatalogDir,
    wit: CatalogDir,
    e: crate::model::ExampleV,
    p: ExampleParameters,
) -> Result<(Seq<Act>, Seq<char>), Seq<Seq<char>>> {
    match lookup_dir(examples, e.example_path) {
        None => Err(e.example_path),
        Some(src) => {
            let out_root = p.target_path@ + seq!['/'] + p.template_name@;
            let tree = dir_plan(src, out_root, p, e.exclude, e.transform_exclude, true);
            let ad: Result<Seq<Act>, Seq<Seq<char>>> = match e.adapter {
                None => Ok(Seq::<Act>::empty()),
                Some(ap) => match lookup_file(adapters, ap) {
                    None => Err(ap),
                    Some(af) => Ok(
                        adapter_acts(af.contents@, ap, tier_name_of(tier_of(e.language)), out_root),
                    ),
                },
            };
            match ad {
                Err(path) => Err(path),
                Ok(aacts) => match first_missing_dep(wit, e.wit_deps, 0) {
                    Some(d) => Err(seq![d]),
                    None => Ok(
                        (
                            tree + aacts + wit_acts(
                                wit,
                                e.wit_deps,
                                0,
                                wit_targets_of(e),
                                out_root,
                            ),
                            tr(e.instructions, p),
                        ),
                    ),
                },
            }
        },
    }
}

/// The computed plan for one instantiation: the actions to carry out in
/// order, and the example's rendered instruction text.
#[derive(Debug, Clone, PartialEq, Eq)]
pub struct InstantiatePlan {
    pub actions: Vec<FsAction>,
    pub instructions: String,
}

/// A reference to a catalog path that does not exist: a packaging defect in
/// the bundled catalog, distinct from any runtime filesystem failure.
#[derive(Debug, Clone)]
pub enum InstantiateError {
    MissingEntry(Vec<String>),
}

/// The planned actions of a vector, in order.
pub open spec fn acts_of(v: Seq<FsAction>) -> Seq<Act> {
    v.map_values(|a: FsAction| a@)
}

pub proof fn lemma_acts_of(v: Seq<FsAction>)
    ensures
        acts_of(v).len() == v.len(),
        forall|i: int| 0 <= i < v.len() ==> acts_of(v)[i] == v[i]@,
{
}

proof fn lemma_acts_of_push(v: Seq<FsAction>, a: FsAction)
    ensures
        acts_of(v.push(a)) == acts_of(v) + seq![a@],
{
    lemma_acts_of(v);
    lemma_acts_of(v.push(a));
    assert(acts_of(v.push(a)) =~= acts_of(v) + seq![a@]);
}

/// Copies a template directory into the plan: one directory-creation
/// action, then each retained entry under its rewritten name.
fn instantiate_dir(
    d: &CatalogDir,
    target: &String,
    parameters: &ExampleParameters,
    excludes: &Vec<String>,
    tex: &Vec<String>,
    root: bool,
    out: &mut Vec<FsAction>,
)
    ensures
        acts_of(final(out)@) == acts_of(old(out)@) + dir_plan(
            *d,
            target@,
            *parameters,
            excludes.deep_view(),
            tex.deep_view(),
            root,
        ),
    decreases *d,
{
    let ghost base = acts_of(out@);
    let mk = FsAction::MkDir { path: target.clone() };
    out.push(mk);
    proof {
        lemma_acts_of_push(old(out)@, mk);
    }
    let ghost ex = excludes.deep_view();
    let ghost texv = tex.deep_view();
    let mut i: usize = 0;
    while i < d.entries.len()
        invariant
            i <= d.entries.len(),
            ex == excludes.deep_view(),
            texv == tex.deep_view(),
            acts_of(out@) + entries_plan(
                d.entries@,
                i as int,
                target@,
                *parameters,
                ex,
                texv,
                root,
            ) == base + dir_plan(*d, target@, *parameters, ex, texv, root),
        decreases d.entries.len() - i,
    {
        let name: &String = match &d.entries[i] {
            CatalogEntry::Dir(sub) => &sub.name,
            CatalogEntry::File(f) => &f.name,
        };
        proof {
            assert(name@ == entry_name(d.entries@[i as int]));
        }
        let skip = contains_str(excludes, name.as_str()) || (root && str_eq(
            name.as_str(),
            "metadata.json",
        ));
        if !skip {
            match &d.entries[i] {
                CatalogEntry::Dir(sub) => {
                    let tname = transform(name.as_str(), parameters);
                    let sub_target = join_path(target.as_str(), tname.as_str());
                    instantiate_dir(sub, &sub_target, parameters, excludes, tex, false, out);
                },
                CatalogEntry::File(f) => {
                    let out_name = file_name_transform(name.as_str(), parameters);
                    let path = join_path(target.as_str(), out_name.as_str());
                    let keep_raw = contains_str(tex, name.as_str());
                    let contents: Vec<u8> = if !keep_raw {
                        match decode_text(&f.contents) {
                            Some(text) => {
                                let rewritten = transform(text.as_str(), parameters);
                                rewritten.as_str().as_bytes_vec()
                            },
                            None => slice_to_vec(f.contents.as_slice()),
                        }
                    } else {
                        slice_to_vec(f.contents.as_slice())
                    };
                    proof {
                        assert(contents@ == file_out_data(
                            f.contents@,
                            *parameters,
                            !texv.contains(name@),
                        ));
                    }
                    let ghost pre = out@;
                    let act = FsAction::WriteFile { path, contents };
                    out.push(act);
                    proof {
                        lemma_acts_of_push(pre, act);
                    }
                },
            }
        }
        i = i + 1;
    }
}

/// Copies the files of one fragment directory into the plan, after creating
/// the destination directory.
fn copy_dep_files(dd: &CatalogDir, dest: &String, out: &mut Vec<FsAction>)
    ensures
        acts_of(final(out)@) == acts_of(old(out)@) + seq![Act::MkDir { path: dest@ }] + files_plan(
            dd.entries@,
            0,
            dest@,
        ),
{
    let ghost base = acts_of(out@);
    let mk = FsAction::MkDir { path: dest.clone() };
    out.push(mk);
    proof {
        lemma_acts_of_push(old(out)@, mk);
    }
    let mut i: usize = 0;
    while i < dd.entries.len()
        invariant
            i <= dd.entries.len(),
            acts_of(out@) + files_plan(dd.entries@, i as int, dest@) == base + seq![
                Act::MkDir { path: dest@ },
            ] + files_plan(dd.entries@, 0, dest@),
        decreases dd.entries.len() - i,
    {
        match &dd.entries[i] {
            CatalogEntry::File(f) => {
                let path = join_path(dest.as_str(), f.name.as_str());
                let ghost pre = out@;
                let act = FsAction::WriteFile {
                    path,
                    contents: slice_to_vec(f.contents.as_slice()),
                };
                out.push(act);
                proof {
                    lemma_acts_of_push(pre, act);
                }
            },
            CatalogEntry::Dir(_) => {
            },
        }
        i = i + 1;
    }
}

/// Computes the full instantiation plan for an example: the template tree
/// copy, the adapter copy, the fragment copies, and the rendered
/// instructions; or the first catalog path the example refers to that does
/// not exist.
#[verifier::loop_isolation(false)]
#[verifier::rlimit(100)]
pub fn instantiate_plan(
    examples: &CatalogDir,
    adapters: &CatalogDir,
    wit: &CatalogDir,
    example: &Example,
    parameters: &ExampleParameters,
) -> (r: Result<InstantiatePlan, InstantiateError>)
    ensures
        r matches Ok(plan) ==> instantiate_spec(
            *examples,
            *adapters,
            *wit,
            example@,
            *parameters,
        ) == Ok::<_, Seq<Seq<char>>>((acts_of(plan.actions@), plan.instructions@)),
        r matches Err(er) ==> (er matches InstantiateError::MissingEntry(path)
            && instantiate_spec(*examples, *adapters, *wit, example@, *parameters) == Err::<
            (Seq<Act>, Seq<char>),
            _,
        >(path.deep_view())),
{
    let src = match get_dir(examples, &example.example_path) {
        Some(d) => d,
        None => {
            return Err(
                InstantiateError::MissingEntry(
                    crate::strutil::clone_strings(&example.example_path),
                ),
            );
        },
    };
    let out_root = join_path(parameters.target_path.as_str(), parameters.template_name.as_string());
    let mut actions: Vec<FsAction> = Vec::new();
    instantiate_dir(
        src,
        &out_root,
        parameters,
        &example.exclude,
        &example.transform_exclude,
        true,
        &mut actions,
    );
    let ghost tree = acts_of(actions@);
    match &example.adapter {
        Some(ap) => {
            let af = match get_file(adapters, ap) {
                Some(f) => f,
                None => {
                    return Err(
                        InstantiateError::MissingEntry(crate::strutil::clone_strings(ap)),
                    );
                },
            };
            proof {
                if ap.deep_view().len() == 0 {
                    assert(lookup_file(*adapters, ap.deep_view()) is None);
                }
            }
            let parent = join_path(
                join_path(out_root.as_str(), "adapters").as_str(),
                example.language.tier().name(),
            );
            let ghost pre = actions@;
            let mk = FsAction::MkDir { path: parent.clone() };
            actions.push(mk);
            proof {
                lemma_acts_of_push(pre, mk);
            }
            let dest = join_path(parent.as_str(), ap[ap.len() - 1].as_str());
            let ghost pre2 = actions@;
            let wr = FsAction::WriteFile {
                path: dest,
                contents: slice_to_vec(af.contents.as_slice()),
            };
            actions.push(wr);
            proof {
                lemma_acts_of_push(pre2, wr);
                assert(ap.deep_view().last() == ap@[ap@.len() - 1]@);
                assert(acts_of(actions@) =~= tree + adapter_acts(
                    af.contents@,
                    ap.deep_view(),
                    tier_name_of(tier_of(example.language)),
                    out_root@,
                ));
            }
        },
        None => {
        },
    }
    let ghost with_adapter = acts_of(actions@);
    let targets: Vec<String> = match &example.wit_deps_targets {
        Some(ts) => crate::strutil::clone_strings(ts),
        None => {
            let mut dt: Vec<String> = Vec::new();
            dt.push(<String as vstd::string::StringExecFns>::from_str("wit/deps"));
            proof {
                assert(dt.deep_view() =~= seq!["wit/deps"@]);
            }
            dt
        },
    };
    let ghost tv = targets.deep_view();
    let ghost deps = example.wit_deps.deep_view();
    proof {
        assert(tv == wit_targets_of(example@));
    }
    let mut k: usize = 0;
    while k < example.wit_deps.len()
        invariant
            k <= example.wit_deps.len(),
            tv == targets.deep_view(),
            deps == example.wit_deps.deep_view(),
            deps.len() == example.wit_deps.len(),
            first_missing_dep(*wit, deps, 0) == first_missing_dep(*wit, deps, k as int),
            acts_of(actions@) + wit_acts(*wit, deps, k as int, tv, out_root@) == with_adapter
                + wit_acts(*wit, deps, 0, tv, out_root@),
        decreases example.wit_deps.len() - k,
    {
        let dep = &example.wit_deps[k];
        let mut dep_path: Vec<String> = Vec::new();
        dep_path.push(dep.clone());
        proof {
            assert(dep_path.deep_view() =~= seq![dep@]);
            assert(dep@ == deps[k as int]);
        }
        let dd = match get_dir(wit, &dep_path) {
            Some(d) => d,
            None => {
                proof {
                    assert(first_missing_dep(*wit, deps, k as int) == Some(dep@));
                    assert(instantiate_spec(*examples, *adapters, *wit, example@, *parameters)
                        == Err::<(Seq<Act>, Seq<char>), Seq<Seq<char>>>(seq![dep@]));
                }
                return Err(InstantiateError::MissingEntry(dep_path));
            },
        };
        let ghost dtp_full = dep_targets_plan(*dd, dep@, tv, 0, out_root@);
        proof {
            assert(wit_acts(*wit, deps, k as int, tv, out_root@) == dtp_full + wit_acts(
                *wit,
                deps,
                k + 1,
                tv,
                out_root@,
            ));
        }
        let mut j: usize = 0;
        while j < targets.len()
            invariant
                j <= targets.len(),
                k < example.wit_deps.len(),
                tv == targets.deep_view(),
                deps == example.wit_deps.deep_view(),
                deps.len() == example.wit_deps.len(),
                dep@ == deps[k as int],
                first_missing_dep(*wit, deps, 0) == first_missing_dep(*wit, deps, k as int),
                lookup_dir(*wit, seq![deps[k as int]]) == Some(*dd),
                acts_of(actions@) + dep_targets_plan(*dd, dep@, tv, j as int, out_root@)
                    + wit_acts(*wit, deps, k + 1, tv, out_root@) == with_adapter + wit_acts(
                    *wit,
                    deps,
                    0,
                    tv,
                    out_root@,
                ),
            decreases targets.len() - j,
        {
            let dest = join_path(
                join_path(out_root.as_str(), targets[j].as_str()).as_str(),
                dep.as_str(),
            );
            let ghost pre_acts = acts_of(actions@);
            copy_dep_files(dd, &dest, &mut actions);
            proof {
                assert(dest@ =~= out_root@ + seq!['/'] + tv[j as int] + seq!['/'] + dep@);
                assert(dep_targets_plan(*dd, dep@, tv, j as int, out_root@) == (seq![
                    Act::MkDir { path: dest@ },
                ] + files_plan(dd.entries@, 0, dest@)) + dep_targets_plan(
                    *dd,
                    dep@,
                    tv,
                    j + 1,
                    out_root@,
                ));
                assert(acts_of(actions@) =~= pre_acts + seq![Act::MkDir { path: dest@ }]
                    + files_plan(dd.entries@, 0, dest@));
                assert(acts_of(actions@) + dep_targets_plan(*dd, dep@, tv, j + 1, out_root@)
                    + wit_acts(*wit, deps, k + 1, tv, out_root@) =~= pre_acts + dep_targets_plan(
                    *dd,
                    dep@,
                    tv,
                    j as int,
                    out_root@,
                ) + wit_acts(*wit, deps, k + 1, tv, out_root@));
            }
            j = j + 1;
        }
        proof {
            assert(dep_targets_plan(*dd, dep@, tv, targets.len() as int, out_root@) =~= Seq::<
                Act,
            >::empty());
            assert(acts_of(actions@) + Seq::<Act>::empty() + wit_acts(
                *wit,
                deps,
                k + 1,
                tv,
                out_root@,
            ) =~= acts_of(actions@) + wit_acts(*wit, deps, k + 1, tv, out_root@));
        }
        k = k + 1;
    }
    let instructions = transform(example.instructions.as_str(), parameters);
    Ok(InstantiatePlan { actions, instructions })
}

/// Instantiation is deterministic: the plan and the rendered instructions
/// are a function of the catalog trees, the example and the parameters
/// alone, so two runs with identical inputs plan byte-identical trees.
pub proof fn lemma_instantiate_deterministic(
    examples: CatalogDir,
    adapters: CatalogDir,
    wit: CatalogDir,
    e: crate::model::ExampleV,
    p: ExampleParameters,
    r1: (Seq<Act>, Seq<char>),
    r2: (Seq<Act>, Seq<char>),
)
    requires
        instantiate_spec(examples, adapters, wit, e, p) == Ok::<(Seq<Act>, Seq<char>), Seq<Seq<char>>>(r1),
        instantiate_spec(examples, adapters, wit, e, p) == Ok::<(Seq<Act>, Seq<char>), Seq<Seq<char>>>(r2),
    ensures
        r1 == r2,
{
}

} // verus!
