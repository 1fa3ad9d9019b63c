//! Building the example index from the catalog: parsing each example's
//! metadata descriptor, resolving its instructions and dependencies, and
//! the query operations over the resulting list.

use crate::catalog::find_entry;
use crate::catalog::get_file;
use crate::catalog::lookup_file;
use crate::catalog::CatalogDir;
use crate::catalog::CatalogEntry;
use crate::catalog::CatalogFile;
use crate::json::meta_spec;
use crate::json::meta_spec_bytes;
use crate::json::metadata_from_value;
use crate::json::parse_json;
use crate::model::lang_of;
use crate::model::level_of;
use crate::model::tier_name_of;
use crate::model::tier_of;
use crate::model::Example;
use crate::model::ExampleMetadata;
use crate::model::ExampleName;
use crate::model::ExampleV;
use crate::model::GuestLanguage;
use crate::model::GuestLanguageTier;
use crate::model::MetadataV;
use crate::strutil::clone_strings;
use crate::strutil::str_eq;
use vstd::prelude::*;
use vstd::string::StringExecFns;
use vstd::utf8::decode_utf8;
use vstd::utf8::valid_utf8;

verus! {

/// A configuration or packaging error found while building the index: the
/// catalog is curated, so each of these means a broken bundle, not bad user
/// input. The payload names the offending directory.
#[derive(Debug, Clone)]
pub enum IndexError {
    /// A top-level catalog directory is not a known guest language.
    UnknownLanguage(String),
    /// An example directory has no metadata descriptor file.
    MissingMetadata(String),
    /// An example's metadata descriptor is not valid JSON, or is missing a
    /// required field, or a field has the wrong type.
    BadMetadata(String),
    /// The instructions file an example refers to does not exist.
    MissingInstructions(String),
    /// The instructions file is not UTF-8 text.
    BadInstructions(String),
}

/// The mathematical shape of an index error.
pub enum IndexErrorV {
    UnknownLanguage(Seq<char>),
    MissingMetadata(Seq<char>),
    BadMetadata(Seq<char>),
    MissingInstructions(Seq<char>),
    BadInstructions(Seq<char>),
}

impl View for IndexError {
    type V = IndexErrorV;

    open spec fn view(&self) -> IndexErrorV {
        match self {
            IndexError::UnknownLanguage(n) => IndexErrorV::UnknownLanguage(n@),
            IndexError::MissingMetadata(n) => IndexErrorV::MissingMetadata(n@),
            IndexError::BadMetadata(n) => IndexErrorV::BadMetadata(n@),
            IndexError::MissingInstructions(n) => IndexErrorV::MissingInstructions(n@),
            IndexError::BadInstructions(n) => IndexErrorV::BadInstructions(n@),
        }
    }
}

/// The shared interface-fragment directories a descriptor asks for: the two
/// host fragments when it requires the host interfaces, then the ten
/// standard OS-capability fragments when it requires those.
pub open spec fn wit_deps_spec(m: MetadataV) -> Seq<Seq<char>> {
    (if m.requires_golem_host_wit == Some(true) {
        seq!["golem"@, "wasm-rpc"@]
    } else {
        Seq::<Seq<char>>::empty()
    }) + (if m.requires_wasi == Some(true) {
        seq![
            "blobstore"@,
            "cli"@,
            "clocks"@,
            "filesystem"@,
            "http"@,
            "io"@,
            "keyvalue"@,
            "logging"@,
            "random"@,
            "sockets"@,
        ]
    } else {
        Seq::<Seq<char>>::empty()
    })
}

/// The adapter binary reference a descriptor asks for: the language tier's
/// adapter, unless the descriptor explicitly declines one.
pub open spec fn adapter_spec(lang: GuestLanguage, m: MetadataV) -> Option<Seq<Seq<char>>> {
    if m.requires_adapter == Some(false) {
        None
    } else {
        Some(seq![tier_name_of(tier_of(lang)), "wasi_snapshot_preview1.wasm"@])
    }
}

/// The name of the instructions file an example reads: the descriptor's
/// override, or the language bucket's default.
pub open spec fn instructions_file_name(m: MetadataV) -> Seq<char> {
    match m.instructions {
        Some(f) => f,
        None => "INSTRUCTIONS"@,
    }
}

/// The example descriptor resolved from a parsed metadata descriptor: every
/// field of the example is a function of the language, the directory names,
/// the metadata and the instructions file found in the catalog.
pub open spec fn resolve_spec(
    catalog: CatalogDir,
    lang: GuestLanguage,
    bucket: Seq<char>,
    dir_name: Seq<char>,
    m: MetadataV,
) -> Result<ExampleV, IndexErrorV> {
    match lookup_file(catalog, seq![bucket, instructions_file_name(m)]) {
        None => Err(IndexErrorV::MissingInstructions(dir_name)),
        Some(f) => {
            if !valid_utf8(f.contents@) {
                Err(IndexErrorV::BadInstructions(dir_name))
            } else {
                Ok(
                    ExampleV {
                        name: dir_name,
                        language: lang,
                        description: m.description,
                        example_path: seq![bucket, dir_name],
                        instructions: decode_utf8(f.contents@),
                        adapter: adapter_spec(lang, m),
                        wit_deps: wit_deps_spec(m),
                        wit_deps_targets: m.wit_deps_paths,
                        exclude: m.exclude,
                        transform_exclude: match m.transform_exclude {
                            Some(x) => x,
                            None => Seq::<Seq<char>>::empty(),
                        },
                    },
                )
            }
        },
    }
}

/// Resolves a parsed metadata descriptor into an example: reads the
/// instructions text from the catalog and computes the dependency lists.
pub fn resolve_example(
    catalog: &CatalogDir,
    lang: GuestLanguage,
    bucket: &String,
    dir_name: &String,
    m: &ExampleMetadata,
) -> (r: Result<Example, IndexError>)
    ensures
        r matches Ok(e) ==> resolve_spec(*catalog, lang, bucket@, dir_name@, m@) == Ok::<ExampleV, IndexErrorV>(e@),
        r matches Err(er) ==> resolve_spec(*catalog, lang, bucket@, dir_name@, m@) == Err::<ExampleV, IndexErrorV>(er@),
{
    let instr_name: String = match &m.instructions {
        Some(s) => s.clone(),
        None => String::from_str("INSTRUCTIONS"),
    };
    let mut instr_path: Vec<String> = Vec::new();
    instr_path.push(bucket.clone());
    instr_path.push(instr_name);
    proof {
        assert(instr_path.deep_view() =~= seq![bucket@, instructions_file_name(m@)]);
    }
    let f = match get_file(catalog, &instr_path) {
        Some(f) => f,
        None => {
            return Err(IndexError::MissingInstructions(dir_name.clone()));
        },
    };
    let instructions = match crate::strutil::decode_text(&f.contents) {
        Some(t) => t,
        None => {
            return Err(IndexError::BadInstructions(dir_name.clone()));
        },
    };
    let mut wit_deps: Vec<String> = Vec::new();
    let host = match m.requires_golem_host_wit {
        Some(b) => b,
        None => false,
    };
    if host {
        wit_deps.push(String::from_str("golem"));
        wit_deps.push(String::from_str("wasm-rpc"));
    }
    let wasi = match m.requires_wasi {
        Some(b) => b,
        None => false,
    };
    if wasi {
        wit_deps.push(String::from_str("blobstore"));
        wit_deps.push(String::from_str("cli"));
        wit_deps.push(String::from_str("clocks"));
        wit_deps.push(String::from_str("filesystem"));
        wit_deps.push(String::from_str("http"));
        wit_deps.push(String::from_str("io"));
        wit_deps.push(String::from_str("keyvalue"));
        wit_deps.push(String::from_str("logging"));
        wit_deps.push(String::from_str("random"));
        wit_deps.push(String::from_str("sockets"));
    }
    proof {
        assert(wit_deps.deep_view() =~= wit_deps_spec(m@));
    }
    let keep_adapter = match m.requires_adapter {
        Some(b) => b,
        None => true,
    };
    let adapter: Option<Vec<String>> = if keep_adapter {
        let mut ap: Vec<String> = Vec::new();
        ap.push(String::from_str(lang.tier().name()));
        ap.push(String::from_str("wasi_snapshot_preview1.wasm"));
        proof {
            assert(ap.deep_view() =~= seq![
                tier_name_of(tier_of(lang)),
                "wasi_snapshot_preview1.wasm"@,
            ]);
        }
        Some(ap)
    } else {
        None
    };
    let wit_deps_targets: Option<Vec<String>> = match &m.wit_deps_paths {
        Some(ps) => Some(clone_strings(ps)),
        None => None,
    };
    let transform_exclude: Vec<String> = match &m.transform_exclude {
        Some(ps) => clone_strings(ps),
        None => Vec::new(),
    };
    let mut example_path: Vec<String> = Vec::new();
    example_path.push(bucket.clone());
    example_path.push(dir_name.clone());
    let e = Example {
        name: ExampleName(dir_name.clone()),
        language: lang,
        description: m.description.clone(),
        example_path,
        instructions,
        adapter,
        wit_deps,
        wit_deps_targets,
        exclude: clone_strings(&m.exclude),
        transform_exclude,
    };
    proof {
        let sv = resolve_spec(*catalog, lang, bucket@, dir_name@, m@);
        assert(e@.example_path =~= seq![bucket@, dir_name@]);
        match sv {
            Ok(ev) => {
                match m@.transform_exclude {
                    Some(_) => {},
                    None => {
                        assert(e@.transform_exclude =~= ev.transform_exclude);
                    },
                }
                assert(e@ == ev);
            },
            Err(_) => {
                assert(false);
            },
        }
    }
    Ok(e)
}

/// The metadata descriptor file of an example directory.
pub open spec fn metadata_file_of(d: CatalogDir) -> Option<CatalogFile> {
    match find_entry(d.entries@, "metadata.json"@) {
        Some(CatalogEntry::File(f)) => Some(f),
        _ => None,
    }
}

/// The parse of one candidate example directory, as a function of the
/// catalog alone: the metadata descriptor file must exist, its bytes must
/// parse as a well-formed descriptor, and the descriptor must resolve.
pub open spec fn parse_spec(
    catalog: CatalogDir,
    lang: GuestLanguage,
    bucket: Seq<char>,
    ed: CatalogDir,
) -> Result<ExampleV, IndexErrorV> {
    match metadata_file_of(ed) {
        None => Err(IndexErrorV::MissingMetadata(ed.name@)),
        Some(f) => match meta_spec_bytes(f.contents@) {
            None => Err(IndexErrorV::BadMetadata(ed.name@)),
            Some(mv) => resolve_spec(catalog, lang, bucket, ed.name@, mv),
        },
    }
}

/// Parses one example directory: reads and parses its metadata descriptor,
/// then resolves it against the catalog. The outcome, success or the exact
/// error, is the `parse_spec` of the directory.
pub fn parse_example(
    catalog: &CatalogDir,
    lang: GuestLanguage,
    bucket: &String,
    example_dir: &CatalogDir,
) -> (r: Result<Example, IndexError>)
    ensures
        r matches Ok(e) ==> parse_spec(*catalog, lang, bucket@, *example_dir) == Ok::<ExampleV, IndexErrorV>(e@),
        r matches Err(er) ==> parse_spec(*catalog, lang, bucket@, *example_dir) == Err::<ExampleV, IndexErrorV>(er@),
{
    let meta_file = match crate::catalog::find_child(example_dir, "metadata.json") {
        Some(CatalogEntry::File(f)) => f,
        Some(CatalogEntry::Dir(_)) => {
            return Err(IndexError::MissingMetadata(example_dir.name.clone()));
        },
        None => {
            return Err(IndexError::MissingMetadata(example_dir.name.clone()));
        },
    };
    proof {
        assert(metadata_file_of(*example_dir) == Some(*meta_file));
    }
    let value = match parse_json(&meta_file.contents) {
        Some(v) => v,
        None => {
            proof {
                assert(meta_spec_bytes(meta_file.contents@) is None);
            }
            return Err(IndexError::BadMetadata(example_dir.name.clone()));
        },
    };
    proof {
        assert(meta_spec(value) == meta_spec_bytes(meta_file.contents@));
    }
    let meta = match metadata_from_value(&value) {
        Some(m) => m,
        None => {
            return Err(IndexError::BadMetadata(example_dir.name.clone()));
        },
    };
    resolve_example(catalog, lang, bucket, &example_dir.name, &meta)
}

/// Whether a directory name denotes an example candidate: not the reserved
/// instructions file and not dot-prefixed.
pub open spec fn is_candidate(name: Seq<char>) -> bool {
    name != "INSTRUCTIONS"@ && (name.len() == 0 || name[0] != '.')
}

/// Concatenation of two partial index results: the first error wins.
pub open spec fn chain_index(
    a: Result<Seq<ExampleV>, IndexErrorV>,
    b: Result<Seq<ExampleV>, IndexErrorV>,
) -> Result<Seq<ExampleV>, IndexErrorV> {
    match a {
        Err(e) => Err(e),
        Ok(x) => match b {
            Err(e) => Err(e),
            Ok(y) => Ok(x + y),
        },
    }
}

/// The examples of one language bucket from entry position `j` on: every
/// candidate directory parsed in order, plain files and non-candidates
/// skipped, stopping at the first error.
pub open spec fn bucket_index_spec(
    catalog: CatalogDir,
    lang: GuestLanguage,
    b: Seq<char>,
    es: Seq<CatalogEntry>,
    j: int,
) -> Result<Seq<ExampleV>, IndexErrorV>
    decreases es.len() - j,
{
    if j < 0 || j >= es.len() {
        Ok(Seq::<ExampleV>::empty())
    } else {
        match es[j] {
            CatalogEntry::File(_) => bucket_index_spec(catalog, lang, b, es, j + 1),
            CatalogEntry::Dir(ed) => {
                if !is_candidate(ed.name@) {
                    bucket_index_spec(catalog, lang, b, es, j + 1)
                } else {
                    match parse_spec(catalog, lang, b, ed) {
                        Err(e) => Err(e),
                        Ok(ev) => chain_index(
                            Ok(seq![ev]),
                            bucket_index_spec(catalog, lang, b, es, j + 1),
                        ),
                    }
                }
            },
        }
    }
}

/// The full example index of the catalog from top-level position `i` on:
/// plain files are skipped, every directory must name a known guest
/// language, its candidates are parsed in order, and the first error wins.
pub open spec fn index_spec(catalog: CatalogDir, es: Seq<CatalogEntry>, i: int) -> Result<
    Seq<ExampleV>,
    IndexErrorV,
>
    decreases es.len() - i,
{
    if i < 0 || i >= es.len() {
        Ok(Seq::<ExampleV>::empty())
    } else {
        match es[i] {
            CatalogEntry::File(_) => index_spec(catalog, es, i + 1),
            CatalogEntry::Dir(d) => match lang_of(d.name@) {
                None => Err(IndexErrorV::UnknownLanguage(d.name@)),
                Some(l) => chain_index(
                    bucket_index_spec(catalog, l, d.name@, d.entries@, 0),
                    index_spec(catalog, es, i + 1),
                ),
            },
        }
    }
}

/// Whether a directory name denotes an example candidate.
fn is_candidate_name(name: &String) -> (r: bool)
    ensures
        r == is_candidate(name@),
{
    let s = name.as_str();
    if str_eq(s, "INSTRUCTIONS") {
        return false;
    }
    let n: usize = s.unicode_len();
    if n == 0 {
        return true;
    }
    s.get_char(0) != '.'
}

/// Builds the example index: walks the catalog's language buckets, parses
/// every candidate example directory, and stops at the first configuration
/// error. The outcome, the full list or the exact first error, is the
/// `index_spec` of the catalog.
#[verifier::loop_isolation(false)]
#[verifier::rlimit(100)]
pub fn build_index(catalog: &CatalogDir) -> (r: Result<Vec<Example>, IndexError>)
    ensures
        r matches Ok(es) ==> index_spec(*catalog, catalog.entries@, 0) == Ok::<Seq<ExampleV>, IndexErrorV>(es.deep_view()),
        r matches Err(er) ==> index_spec(*catalog, catalog.entries@, 0) == Err::<Seq<ExampleV>, IndexErrorV>(er@),
{
    let ghost full = index_spec(*catalog, catalog.entries@, 0);
    let mut result: Vec<Example> = Vec::new();
    let mut i: usize = 0;
    proof {
        match full {
            Ok(x) => {
                assert(Seq::<ExampleV>::empty() + x =~= x);
            },
            Err(_) => {},
        }
        assert(result.deep_view() =~= Seq::<ExampleV>::empty());
    }
    while i < catalog.entries.len()
        invariant
            i <= catalog.entries.len(),
            full == chain_index(
                Ok(result.deep_view()),
                index_spec(*catalog, catalog.entries@, i as int),
            ),
        decreases catalog.entries.len() - i,
    {
        match &catalog.entries[i] {
            CatalogEntry::File(_) => {
            },
            CatalogEntry::Dir(lang_dir) => {
                let lang = match GuestLanguage::from_string(lang_dir.name.as_str()) {
                    Some(l) => l,
                    None => {
                        return Err(IndexError::UnknownLanguage(lang_dir.name.clone()));
                    },
                };
                let ghost b = lang_dir.name@;
                let ghost rest = index_spec(*catalog, catalog.entries@, i + 1);
                let mut j: usize = 0;
                while j < lang_dir.entries.len()
                    invariant
                        j <= lang_dir.entries.len(),
                        full == chain_index(
                            Ok(result.deep_view()),
                            chain_index(
                                bucket_index_spec(*catalog, lang, b, lang_dir.entries@, j as int),
                                rest,
                            ),
                        ),
                    decreases lang_dir.entries.len() - j,
                {
                    match &lang_dir.entries[j] {
                        CatalogEntry::Dir(example_dir) => {
                            if is_candidate_name(&example_dir.name) {
                                match parse_example(catalog, lang, &lang_dir.name, example_dir) {
                                    Ok(ex) => {
                                        let ghost pre = result.deep_view();
                                        result.push(ex);
                                        proof {
                                            lemma_chain_push(
                                                pre,
                                                ex@,
                                                bucket_index_spec(
                                                    *catalog,
                                                    lang,
                                                    b,
                                                    lang_dir.entries@,
                                                    j + 1,
                                                ),
                                                rest,
                                            );
                                            assert(result.deep_view() =~= pre.push(ex@));
                                        }
                                    },
                                    Err(e) => {
                                        return Err(e);
                                    },
                                }
                            }
                        },
                        CatalogEntry::File(_) => {
                        },
                    }
                    j = j + 1;
                }
                proof {
                    let after = bucket_index_spec(
                        *catalog,
                        lang,
                        b,
                        lang_dir.entries@,
                        lang_dir.entries@.len() as int,
                    );
                    assert(after == Ok::<Seq<ExampleV>, IndexErrorV>(Seq::<ExampleV>::empty()));
                    match rest {
                        Ok(x) => {
                            assert(Seq::<ExampleV>::empty() + x =~= x);
                        },
                        Err(_) => {},
                    }
                    assert(chain_index(after, rest) == rest);
                }
            },
        }
        i = i + 1;
    }
    proof {
        match full {
            Ok(_) => {
                assert(result.deep_view() + Seq::<ExampleV>::empty() =~= result.deep_view());
            },
            Err(_) => {},
        }
    }
    Ok(result)
}

/// Pushing one parsed example onto the prefix re-associates the pending
/// concatenations of the index fold.
proof fn lemma_chain_push(
    pre: Seq<ExampleV>,
    ev: ExampleV,
    b_rest: Result<Seq<ExampleV>, IndexErrorV>,
    rest: Result<Seq<ExampleV>, IndexErrorV>,
)
    ensures
        chain_index(Ok(pre), chain_index(chain_index(Ok(seq![ev]), b_rest), rest)) == chain_index(
            Ok(pre.push(ev)),
            chain_index(b_rest, rest),
        ),
{
    match b_rest {
        Err(_) => {},
        Ok(bs) => {
            match rest {
                Err(_) => {},
                Ok(r) => {
                    assert(pre + ((seq![ev] + bs) + r) =~= pre.push(ev) + (bs + r));
                },
            }
        },
    }
}

/// Whether an example passes the listing filters: a language filter by
/// equality, and a maximum tier ordinal, inclusive.
pub open spec fn keep_example(
    e: ExampleV,
    language: Option<GuestLanguage>,
    min_tier: Option<GuestLanguageTier>,
) -> bool {
    (match language {
        Some(l) => e.language == l,
        None => true,
    }) && (match min_tier {
        Some(t) => level_of(tier_of(e.language)) <= level_of(t),
        None => true,
    })
}

/// The examples that pass the listing filters, in order.
pub open spec fn filter_examples_spec(
    es: Seq<ExampleV>,
    language: Option<GuestLanguage>,
    min_tier: Option<GuestLanguageTier>,
) -> Seq<ExampleV>
    decreases es.len(),
{
    if es.len() == 0 {
        Seq::<ExampleV>::empty()
    } else {
        (if keep_example(es[0], language, min_tier) {
            seq![es[0]]
        } else {
            Seq::<ExampleV>::empty()
        }) + filter_examples_spec(es.drop_first(), language, min_tier)
    }
}

proof fn lemma_filter_snoc(
    es: Seq<ExampleV>,
    language: Option<GuestLanguage>,
    min_tier: Option<GuestLanguageTier>,
    i: int,
)
    requires
        0 <= i < es.len(),
    ensures
        filter_examples_spec(es.take(i + 1), language, min_tier) == filter_examples_spec(
            es.take(i),
            language,
            min_tier,
        ) + (if keep_example(es[i], language, min_tier) {
            seq![es[i]]
        } else {
            Seq::<ExampleV>::empty()
        }),
    decreases i,
{
    let head = |x: ExampleV|
        if keep_example(x, language, min_tier) {
            seq![x]
        } else {
            Seq::<ExampleV>::empty()
        };
    if i == 0 {
        assert(es.take(0) =~= Seq::<ExampleV>::empty());
        assert(es.take(1) =~= seq![es[0]]);
        assert(seq![es[0]].drop_first() =~= Seq::<ExampleV>::empty());
        assert(seq![es[0]][0] == es[0]);
        assert(filter_examples_spec(Seq::<ExampleV>::empty(), language, min_tier) =~= Seq::<
            ExampleV,
        >::empty());
        if keep_example(es[0], language, min_tier) {
            assert(filter_examples_spec(es.take(1), language, min_tier) =~= seq![es[0]]);
            assert(Seq::<ExampleV>::empty() + seq![es[0]] =~= seq![es[0]]);
        } else {
            assert(filter_examples_spec(es.take(1), language, min_tier) =~= Seq::<
                ExampleV,
            >::empty());
        }
    } else {
        let t = es.drop_first();
        lemma_filter_snoc(t, language, min_tier, i - 1);
        assert(es.take(i + 1)[0] == es[0]);
        assert(es.take(i + 1).drop_first() =~= t.take(i));
        assert(es.take(i)[0] == es[0]);
        assert(es.take(i).drop_first() =~= t.take(i - 1));
        assert(t[i - 1] == es[i]);
        let h0 = head(es[0]);
        let hi = head(es[i]);
        assert(filter_examples_spec(es.take(i + 1), language, min_tier) == h0
            + filter_examples_spec(t.take(i), language, min_tier));
        assert(filter_examples_spec(es.take(i), language, min_tier) == h0 + filter_examples_spec(
            t.take(i - 1),
            language,
            min_tier,
        ));
        assert((h0 + filter_examples_spec(t.take(i - 1), language, min_tier)) + hi =~= h0 + (
        filter_examples_spec(t.take(i - 1), language, min_tier) + hi));
    }
}

/// The examples that pass the listing filters: by language equality, and by
/// a maximum tier ordinal, inclusive.
pub fn filter_examples<'a>(
    examples: &'a Vec<Example>,
    language: Option<GuestLanguage>,
    min_tier: Option<GuestLanguageTier>,
) -> (r: Vec<&'a Example>)
    ensures
        r.deep_view() == filter_examples_spec(examples.deep_view(), language, min_tier),
{
    let ghost es = examples.deep_view();
    let mut r: Vec<&'a Example> = Vec::new();
    let mut i: usize = 0;
    proof {
        assert(es.take(0) =~= Seq::<ExampleV>::empty());
    }
    while i < examples.len()
        invariant
            i <= examples.len(),
            es == examples.deep_view(),
            es.len() == examples.len(),
            r.deep_view() == filter_examples_spec(es.take(i as int), language, min_tier),
        decreases examples.len() - i,
    {
        let e = &examples[i];
        let lang_ok = match language {
            Some(l) => e.language == l,
            None => true,
        };
        let tier_ok = match min_tier {
            Some(t) => e.language.tier().level() <= t.level(),
            None => true,
        };
        let ghost pre = r.deep_view();
        if lang_ok && tier_ok {
            r.push(e);
            proof {
                assert(r.deep_view() =~= pre.push(es[i as int]));
            }
        }
        proof {
            lemma_filter_snoc(es, language, min_tier, i as int);
            if lang_ok && tier_ok {
                assert(pre.push(es[i as int]) =~= pre + seq![es[i as int]]);
            } else {
                assert(pre + Seq::<ExampleV>::empty() =~= pre);
            }
        }
        i = i + 1;
    }
    proof {
        assert(es.take(es.len() as int) =~= es);
    }
    r
}

/// Every example kept by a tier filter is at or below the requested tier.
pub proof fn lemma_filter_respects_tier(
    es: Seq<ExampleV>,
    language: Option<GuestLanguage>,
    t: GuestLanguageTier,
)
    ensures
        forall|i: int|
            0 <= i < filter_examples_spec(es, language, Some(t)).len() ==> level_of(
                tier_of(#[trigger] filter_examples_spec(es, language, Some(t))[i].language),
            ) <= level_of(t),
    decreases es.len(),
{
    if es.len() > 0 {
        lemma_filter_respects_tier(es.drop_first(), language, t);
        let rest = filter_examples_spec(es.drop_first(), language, Some(t));
        assert forall|i: int|
            0 <= i < filter_examples_spec(es, language, Some(t)).len() implies level_of(
            tier_of(#[trigger] filter_examples_spec(es, language, Some(t))[i].language),
        ) <= level_of(t) by {
            if keep_example(es[0], language, Some(t)) {
                if i == 0 {
                    assert(filter_examples_spec(es, language, Some(t))[0] == es[0]);
                } else {
                    assert(filter_examples_spec(es, language, Some(t))[i] == rest[i - 1]);
                }
            } else {
                assert(filter_examples_spec(es, language, Some(t))[i] == rest[i]);
            }
        }
    }
}

/// The first example with the given name, scanning from position `i`.
pub open spec fn find_example_from(es: Seq<ExampleV>, name: Seq<char>, i: int) -> Option<ExampleV>
    decreases es.len() - i,
{
    if i < 0 || i >= es.len() {
        None
    } else if es[i].name == name {
        Some(es[i])
    } else {
        find_example_from(es, name, i + 1)
    }
}

/// The first example with the given name, by exact match.
pub open spec fn find_example_spec(es: Seq<ExampleV>, name: Seq<char>) -> Option<ExampleV> {
    find_example_from(es, name, 0)
}

/// The first example with the given name, by exact match; no fuzzy
/// matching.
pub fn find_example<'a>(examples: &'a Vec<Example>, name: &ExampleName) -> (r: Option<&'a Example>)
    ensures
        r is Some <==> find_example_spec(examples.deep_view(), name@) is Some,
        r matches Some(e) ==> find_example_spec(examples.deep_view(), name@) == Some(e@),
{
    let ghost es = examples.deep_view();
    let mut i: usize = 0;
    while i < examples.len()
        invariant
            i <= examples.len(),
            es == examples.deep_view(),
            es.len() == examples.len(),
            find_example_spec(es, name@) == find_example_from(es, name@, i as int),
        decreases examples.len() - i,
    {
        if str_eq(examples[i].name.as_string(), name.as_string()) {
            return Some(&examples[i]);
        }
        i = i + 1;
    }
    None
}

} // verus!
