//! The data model: identifiers and their naming-convention renderings, the
//! guest languages with their tiers, and the descriptors that drive template
//! instantiation.

use crate::naming::camel_of;
use crate::naming::cap_part;
use crate::naming::join_with;
use crate::naming::kebab_of;
use crate::naming::lower_seq;
use crate::naming::lower_string;
use crate::naming::lowercase_first;
use crate::naming::pascal_of;
use crate::naming::snake_of;
use crate::naming::split_identifier;
use crate::naming::split_parts;
use crate::strutil::char_pos;
use crate::strutil::chars_range_to_string;
use crate::strutil::find_char;
use crate::strutil::lemma_char_pos_bounds;
use crate::strutil::str_chars;
use crate::strutil::str_eq;
use crate::naming::capitalize_first;
use vstd::prelude::*;
use vstd::string::StrSliceExecFns;
use vstd::string::StringExecFns;

verus! {

/// The name chosen for a new component, in any naming convention; the
/// naming transform derives its kebab, snake, Pascal and camel renderings.
#[derive(Debug, Clone)]
pub struct TemplateName(pub String);

impl View for TemplateName {
    type V = Seq<char>;

    open spec fn view(&self) -> Seq<char> {
        self.0@
    }
}

impl TemplateName {
    pub fn new(name: &str) -> (r: TemplateName)
        ensures
            r@ == name@,
    {
        TemplateName(String::from_str(name))
    }

    pub fn as_string(&self) -> (r: &str)
        ensures
            r@ == self@,
    {
        self.0.as_str()
    }

    /// The ordered lowercase word parts of the name.
    pub fn parts(&self) -> (r: Vec<String>)
        ensures
            r.deep_view() == split_parts(self@),
    {
        split_identifier(self.0.as_str())
    }

    pub fn to_kebab_case(&self) -> (r: String)
        ensures
            r@ == kebab_of(self@),
    {
        let ps = self.parts();
        join_with(&ps, '-')
    }

    pub fn to_snake_case(&self) -> (r: String)
        ensures
            r@ == snake_of(self@),
    {
        let ps = self.parts();
        join_with(&ps, '_')
    }

    pub fn to_pascal_case(&self) -> (r: String)
        ensures
            r@ == pascal_of(self@),
    {
        let ps = self.parts();
        crate::naming::concat_capitalized(&ps)
    }

    pub fn to_camel_case(&self) -> (r: String)
        ensures
            r@ == camel_of(self@),
    {
        let p = self.to_pascal_case();
        lowercase_first(p.as_str())
    }
}

/// A guest language a template can target.
#[derive(Debug, Clone, Copy, PartialEq, Eq, Hash, Structural)]
pub enum GuestLanguage {
    Rust,
    Go,
    C,
    Zig,
    JavaScript,
    CSharp,
    Swift,
    Grain,
    Python,
    Scala2,
}

/// The language a name denotes, compared case-insensitively, with the
/// aliases each language accepts.
pub open spec fn lang_of(s: Seq<char>) -> Option<GuestLanguage> {
    let t = lower_seq(s);
    if t == "rust"@ {
        Some(GuestLanguage::Rust)
    } else if t == "go"@ {
        Some(GuestLanguage::Go)
    } else if t == "c"@ || t == "c++"@ || t == "cpp"@ {
        Some(GuestLanguage::C)
    } else if t == "zig"@ {
        Some(GuestLanguage::Zig)
    } else if t == "js"@ || t == "javascript"@ {
        Some(GuestLanguage::JavaScript)
    } else if t == "c#"@ || t == "cs"@ || t == "csharp"@ {
        Some(GuestLanguage::CSharp)
    } else if t == "swift"@ {
        Some(GuestLanguage::Swift)
    } else if t == "grain"@ {
        Some(GuestLanguage::Grain)
    } else if t == "py"@ || t == "python"@ {
        Some(GuestLanguage::Python)
    } else if t == "scala2"@ {
        Some(GuestLanguage::Scala2)
    } else {
        None
    }
}

/// The tier of each guest language.
pub open spec fn tier_of(l: GuestLanguage) -> GuestLanguageTier {
    match l {
        GuestLanguage::Rust => GuestLanguageTier::Tier2,
        GuestLanguage::Go => GuestLanguageTier::Tier2,
        GuestLanguage::C => GuestLanguageTier::Tier2,
        GuestLanguage::Zig => GuestLanguageTier::Tier3,
        GuestLanguage::JavaScript => GuestLanguageTier::Tier2,
        GuestLanguage::CSharp => GuestLanguageTier::Tier4,
        GuestLanguage::Swift => GuestLanguageTier::Tier3,
        GuestLanguage::Grain => GuestLanguageTier::Tier3,
        GuestLanguage::Python => GuestLanguageTier::Tier2,
        GuestLanguage::Scala2 => GuestLanguageTier::Tier2,
    }
}

/// The display name of each guest language.
pub open spec fn lang_name_of(l: GuestLanguage) -> Seq<char> {
    match l {
        GuestLanguage::Rust => "Rust"@,
        GuestLanguage::Go => "Go"@,
        GuestLanguage::C => "C"@,
        GuestLanguage::Zig => "Zig"@,
        GuestLanguage::JavaScript => "JavaScript"@,
        GuestLanguage::CSharp => "C#"@,
        GuestLanguage::Swift => "Swift"@,
        GuestLanguage::Grain => "Grain"@,
        GuestLanguage::Python => "Python"@,
        GuestLanguage::Scala2 => "Scala 2"@,
    }
}

impl GuestLanguage {
    /// The language a name denotes, compared case-insensitively.
    pub fn from_string(s: &str) -> (r: Option<GuestLanguage>)
        ensures
            r == lang_of(s@),
    {
        let t = lower_string(s);
        let t = t.as_str();
        if str_eq(t, "rust") {
            Some(GuestLanguage::Rust)
        } else if str_eq(t, "go") {
            Some(GuestLanguage::Go)
        } else if str_eq(t, "c") || str_eq(t, "c++") || str_eq(t, "cpp") {
            Some(GuestLanguage::C)
        } else if str_eq(t, "zig") {
            Some(GuestLanguage::Zig)
        } else if str_eq(t, "js") || str_eq(t, "javascript") {
            Some(GuestLanguage::JavaScript)
        } else if str_eq(t, "c#") || str_eq(t, "cs") || str_eq(t, "csharp") {
            Some(GuestLanguage::CSharp)
        } else if str_eq(t, "swift") {
            Some(GuestLanguage::Swift)
        } else if str_eq(t, "grain") {
            Some(GuestLanguage::Grain)
        } else if str_eq(t, "py") || str_eq(t, "python") {
            Some(GuestLanguage::Python)
        } else if str_eq(t, "scala2") {
            Some(GuestLanguage::Scala2)
        } else {
            None
        }
    }

    /// The maturity tier of the language's ecosystem.
    pub fn tier(&self) -> (r: GuestLanguageTier)
        ensures
            r == tier_of(*self),
    {
        match self {
            GuestLanguage::Rust => GuestLanguageTier::Tier2,
            GuestLanguage::Go => GuestLanguageTier::Tier2,
            GuestLanguage::C => GuestLanguageTier::Tier2,
            GuestLanguage::Zig => GuestLanguageTier::Tier3,
            GuestLanguage::JavaScript => GuestLanguageTier::Tier2,
            GuestLanguage::CSharp => GuestLanguageTier::Tier4,
            GuestLanguage::Swift => GuestLanguageTier::Tier3,
            GuestLanguage::Grain => GuestLanguageTier::Tier3,
            GuestLanguage::Python => GuestLanguageTier::Tier2,
            GuestLanguage::Scala2 => GuestLanguageTier::Tier2,
        }
    }

    /// The canonical display name of the language.
    pub fn name(&self) -> (r: &'static str)
        ensures
            r@ == lang_name_of(*self),
    {
        match self {
            GuestLanguage::Rust => "Rust",
            GuestLanguage::Go => "Go",
            GuestLanguage::C => "C",
            GuestLanguage::Zig => "Zig",
            GuestLanguage::JavaScript => "JavaScript",
            GuestLanguage::CSharp => "C#",
            GuestLanguage::Swift => "Swift",
            GuestLanguage::Grain => "Grain",
            GuestLanguage::Python => "Python",
            GuestLanguage::Scala2 => "Scala 2",
        }
    }
}

/// The ordinal maturity ranking of a guest language's ecosystem.
#[derive(Debug, Clone, Copy, PartialEq, Eq, Hash, Structural)]
pub enum GuestLanguageTier {
    Tier1,
    Tier2,
    Tier3,
    Tier4,
}

/// The tier a name denotes, compared case-insensitively.
pub open spec fn tier_from(s: Seq<char>) -> Option<GuestLanguageTier> {
    let t = lower_seq(s);
    if t == "tier1"@ || t == "1"@ {
        Some(GuestLanguageTier::Tier1)
    } else if t == "tier2"@ || t == "2"@ {
        Some(GuestLanguageTier::Tier2)
    } else if t == "tier3"@ || t == "3"@ {
        Some(GuestLanguageTier::Tier3)
    } else if t == "tier4"@ || t == "4"@ {
        Some(GuestLanguageTier::Tier4)
    } else {
        None
    }
}

/// The ordinal of each tier.
pub open spec fn level_of(t: GuestLanguageTier) -> u8 {
    match t {
        GuestLanguageTier::Tier1 => 1u8,
        GuestLanguageTier::Tier2 => 2u8,
        GuestLanguageTier::Tier3 => 3u8,
        GuestLanguageTier::Tier4 => 4u8,
    }
}

/// The lowercase name of each tier.
pub open spec fn tier_name_of(t: GuestLanguageTier) -> Seq<char> {
    match t {
        GuestLanguageTier::Tier1 => "tier1"@,
        GuestLanguageTier::Tier2 => "tier2"@,
        GuestLanguageTier::Tier3 => "tier3"@,
        GuestLanguageTier::Tier4 => "tier4"@,
    }
}

impl GuestLanguageTier {
    /// The tier a name denotes, compared case-insensitively.
    pub fn from_string(s: &str) -> (r: Option<GuestLanguageTier>)
        ensures
            r == tier_from(s@),
    {
        let t = lower_string(s);
        let t = t.as_str();
        if str_eq(t, "tier1") || str_eq(t, "1") {
            Some(GuestLanguageTier::Tier1)
        } else if str_eq(t, "tier2") || str_eq(t, "2") {
            Some(GuestLanguageTier::Tier2)
        } else if str_eq(t, "tier3") || str_eq(t, "3") {
            Some(GuestLanguageTier::Tier3)
        } else if str_eq(t, "tier4") || str_eq(t, "4") {
            Some(GuestLanguageTier::Tier4)
        } else {
            None
        }
    }

    /// The ordinal of the tier; lower ordinals are more mature.
    pub fn level(&self) -> (r: u8)
        ensures
            r == level_of(*self),
    {
        match self {
            GuestLanguageTier::Tier1 => 1,
            GuestLanguageTier::Tier2 => 2,
            GuestLanguageTier::Tier3 => 3,
            GuestLanguageTier::Tier4 => 4,
        }
    }

    /// The lowercase name of the tier.
    pub fn name(&self) -> (r: &'static str)
        ensures
            r@ == tier_name_of(*self),
    {
        match self {
            GuestLanguageTier::Tier1 => "tier1",
            GuestLanguageTier::Tier2 => "tier2",
            GuestLanguageTier::Tier3 => "tier3",
            GuestLanguageTier::Tier4 => "tier4",
        }
    }
}

/// A component package name: a namespace and a name, written `"ns:name"`.
#[derive(Debug, Clone)]
pub struct PackageName {
    pub namespace: String,
    pub name: String,
}

/// Whether a string holds exactly one colon, at the position `char_pos`
/// finds; only such strings parse as package names.
pub open spec fn one_colon(s: Seq<char>) -> bool {
    char_pos(s, ':', 0) < s.len() && char_pos(s, ':', char_pos(s, ':', 0) + 1) == s.len()
}

impl PackageName {
    /// Parses `"namespace:name"`; any other shape (no colon, or more than
    /// one) is rejected.
    pub fn from_string(s: &str) -> (r: Option<PackageName>)
        ensures
            r is Some <==> one_colon(s@),
            r matches Some(p) ==> {
                &&& p.namespace@ == s@.take(char_pos(s@, ':', 0))
                &&& p.name@ == s@.skip(char_pos(s@, ':', 0) + 1)
            },
    {
        let cs = str_chars(s);
        let p = find_char(&cs, ':', 0);
        if p == cs.len() {
            return None;
        }
        let q = find_char(&cs, ':', p + 1);
        if q != cs.len() {
            return None;
        }
        let namespace = chars_range_to_string(&cs, 0, p);
        let name = chars_range_to_string(&cs, p + 1, cs.len());
        proof {
            assert(cs@.subrange(0, p as int) =~= s@.take(p as int));
            assert(cs@.subrange(p + 1, cs@.len() as int) =~= s@.skip(p + 1));
        }
        Some(PackageName { namespace, name })
    }

    /// Both components capitalized and concatenated.
    pub fn to_pascal_case(&self) -> (r: String)
        ensures
            r@ == cap_part(self.namespace@) + cap_part(self.name@),
    {
        let mut r = capitalize_first(self.namespace.as_str());
        let n = capitalize_first(self.name.as_str());
        r.append(n.as_str());
        r
    }

    pub fn to_snake_case(&self) -> (r: String)
        ensures
            r@ == self.namespace@ + seq!['_'] + self.name@,
    {
        self.joined('_')
    }

    pub fn to_kebab_case(&self) -> (r: String)
        ensures
            r@ == self.namespace@ + seq!['-'] + self.name@,
    {
        self.joined('-')
    }

    pub fn to_string_with_double_colon(&self) -> (r: String)
        ensures
            r@ == self.namespace@ + seq![':', ':'] + self.name@,
    {
        let mut r = self.namespace.clone();
        crate::strutil::push_char(&mut r, ':');
        crate::strutil::push_char(&mut r, ':');
        r.append(self.name.as_str());
        proof {
            assert(self.namespace@.push(':').push(':') =~= self.namespace@ + seq![':', ':']);
        }
        r
    }

    pub fn to_string_with_colon(&self) -> (r: String)
        ensures
            r@ == self.namespace@ + seq![':'] + self.name@,
    {
        self.joined(':')
    }

    pub fn to_string_with_slash(&self) -> (r: String)
        ensures
            r@ == self.namespace@ + seq!['/'] + self.name@,
    {
        self.joined('/')
    }

    /// The namespace component alone.
    pub fn namespace_string(&self) -> (r: String)
        ensures
            r@ == self.namespace@,
    {
        self.namespace.clone()
    }

    /// The namespace component, capitalized.
    pub fn namespace_title_case(&self) -> (r: String)
        ensures
            r@ == cap_part(self.namespace@),
    {
        capitalize_first(self.namespace.as_str())
    }

    /// The two components joined by a single separator character.
    fn joined(&self, sep: char) -> (r: String)
        ensures
            r@ == self.namespace@ + seq![sep] + self.name@,
    {
        let mut r = self.namespace.clone();
        crate::strutil::push_char(&mut r, sep);
        r.append(self.name.as_str());
        proof {
            assert(self.namespace@.push(sep) =~= self.namespace@ + seq![sep]);
        }
        r
    }
}

/// The name identifying one example in the catalog.
#[derive(Debug, Clone)]
pub struct ExampleName(pub String);

impl View for ExampleName {
    type V = Seq<char>;

    open spec fn view(&self) -> Seq<char> {
        self.0@
    }
}

impl ExampleName {
    pub fn from_string(s: &str) -> (r: ExampleName)
        ensures
            r@ == s@,
    {
        ExampleName(String::from_str(s))
    }

    pub fn as_string(&self) -> (r: &str)
        ensures
            r@ == self@,
    {
        self.0.as_str()
    }
}

/// One scaffoldable template, with its resolved dependencies.
#[derive(Debug, Clone)]
pub struct Example {
    /// The example's name: the name of its directory in the catalog.
    pub name: ExampleName,
    /// The guest language the example targets.
    pub language: GuestLanguage,
    /// The human-readable description from the example's metadata.
    pub description: String,
    /// The example's directory in the catalog: language bucket, then
    /// example directory.
    pub example_path: Vec<String>,
    /// The raw, unrendered instruction text.
    pub instructions: String,
    /// The adapter binary to bundle, as a path within the adapters tree,
    /// or nothing if the metadata declined one.
    pub adapter: Option<Vec<String>>,
    /// The names of the shared interface-fragment directories to copy.
    pub wit_deps: Vec<String>,
    /// Where to place the fragment directories in the output tree, if the
    /// metadata overrides the default location.
    pub wit_deps_targets: Option<Vec<String>>,
    /// Literal entry names to skip entirely during the copy.
    pub exclude: Vec<String>,
    /// Names of copied files whose contents must not be rewritten.
    pub transform_exclude: Vec<String>,
}

/// A caller's instantiation request.
#[derive(Debug, Clone)]
pub struct ExampleParameters {
    /// The component name placeholders are rewritten to.
    pub template_name: TemplateName,
    /// The package name placeholders are rewritten to.
    pub package_name: PackageName,
    /// The directory the component directory is created in.
    pub target_path: String,
}

/// The fields of an example's on-disk metadata descriptor.
#[derive(Debug, Clone)]
pub struct ExampleMetadata {
    /// Human-readable description; required.
    pub description: String,
    /// Whether an adapter binary is bundled; defaults to true.
    pub requires_adapter: Option<bool>,
    /// Whether the host interface fragments are copied; defaults to false.
    pub requires_golem_host_wit: Option<bool>,
    /// Whether the standard OS-capability fragments are copied; defaults to
    /// false.
    pub requires_wasi: Option<bool>,
    /// Literal entry names to skip during the copy; required.
    pub exclude: Vec<String>,
    /// An instructions file overriding the language bucket's default.
    pub instructions: Option<String>,
    /// Output subpaths the fragment directories are copied into, overriding
    /// the default location.
    pub wit_deps_paths: Option<Vec<String>>,
    /// Names of copied files whose contents must not be rewritten.
    pub transform_exclude: Option<Vec<String>>,
}

/// The mathematical shape of a metadata descriptor.
pub struct MetadataV {
    pub description: Seq<char>,
    pub requires_adapter: Option<bool>,
    pub requires_golem_host_wit: Option<bool>,
    pub requires_wasi: Option<bool>,
    pub exclude: Seq<Seq<char>>,
    pub instructions: Option<Seq<char>>,
    pub wit_deps_paths: Option<Seq<Seq<char>>>,
    pub transform_exclude: Option<Seq<Seq<char>>>,
}

impl View for ExampleMetadata {
    type V = MetadataV;

    open spec fn view(&self) -> MetadataV {
        MetadataV {
            description: self.description@,
            requires_adapter: self.requires_adapter,
            requires_golem_host_wit: self.requires_golem_host_wit,
            requires_wasi: self.requires_wasi,
            exclude: self.exclude.deep_view(),
            instructions: match self.instructions {
                Some(s) => Some(s@),
                None => None,
            },
            wit_deps_paths: match self.wit_deps_paths {
                Some(ref ps) => Some(ps.deep_view()),
                None => None,
            },
            transform_exclude: match self.transform_exclude {
                Some(ref ps) => Some(ps.deep_view()),
                None => None,
            },
        }
    }
}

/// The mathematical shape of an example descriptor.
pub struct ExampleV {
    pub name: Seq<char>,
    pub language: GuestLanguage,
    pub description: Seq<char>,
    pub example_path: Seq<Seq<char>>,
    pub instructions: Seq<char>,
    pub adapter: Option<Seq<Seq<char>>>,
    pub wit_deps: Seq<Seq<char>>,
    pub wit_deps_targets: Option<Seq<Seq<char>>>,
    pub exclude: Seq<Seq<char>>,
    pub transform_exclude: Seq<Seq<char>>,
}

impl View for Example {
    type V = ExampleV;

    open spec fn view(&self) -> ExampleV {
        ExampleV {
            name: self.name@,
            language: self.language,
            description: self.description@,
            example_path: self.example_path.deep_view(),
            instructions: self.instructions@,
            adapter: match self.adapter {
                Some(ref p) => Some(p.deep_view()),
                None => None,
            },
            wit_deps: self.wit_deps.deep_view(),
            wit_deps_targets: match self.wit_deps_targets {
                Some(ref ps) => Some(ps.deep_view()),
                None => None,
            },
            exclude: self.exclude.deep_view(),
            transform_exclude: self.transform_exclude.deep_view(),
        }
    }
}

impl DeepView for Example {
    type V = ExampleV;

    open spec fn deep_view(&self) -> ExampleV {
        self.view()
    }
}

} // verus!
