//! The token-substitution pass: a fixed, ordered sequence of literal
//! substring replacements that rewrites the placeholder tokens in names,
//! file contents and instruction text to the caller's component and package
//! identifiers. Compound tokens are replaced before the shorter tokens they
//! contain, so order matters.

use crate::model::ExampleParameters;
use crate::naming::cap_part;
use crate::naming::kebab_of;
use crate::naming::pascal_of;
use crate::naming::snake_of;
use crate::strutil::chars_to_string;
use crate::strutil::replace_chars;
use crate::strutil::replace_str;
use crate::strutil::str_chars;
use vstd::prelude::*;
use vstd::string::StringExecFns;

verus! {

/// The token-substitution pass over a string, given the component name and
/// the package namespace and name.
pub open spec fn transform_spec(s: Seq<char>, cn: Seq<char>, ns: Seq<char>, n: Seq<char>) -> Seq<
    char,
> {
    let s1 = replace_str(s, "component-name"@, kebab_of(cn));
    let s2 = replace_str(s1, "ComponentName"@, pascal_of(cn));
    let s3 = replace_str(s2, "component_name"@, snake_of(cn));
    let s4 = replace_str(s3, "pack::name"@, ns + seq![':', ':'] + n);
    let s5 = replace_str(s4, "pack:name"@, ns + seq![':'] + n);
    let s6 = replace_str(s5, "pack_name"@, ns + seq!['_'] + n);
    let s7 = replace_str(s6, "pack-name"@, ns + seq!['-'] + n);
    let s8 = replace_str(s7, "pack/name"@, ns + seq!['/'] + n);
    let s9 = replace_str(s8, "PackName"@, cap_part(ns) + cap_part(n));
    let s10 = replace_str(s9, "pack-ns"@, ns);
    replace_str(s10, "PackNs"@, cap_part(ns))
}

/// The token-substitution pass for entry names: after the ordinary pass, the
/// literal suffix that disguises a build-manifest file from the packaging
/// tool is undone.
pub open spec fn file_name_transform_spec(
    s: Seq<char>,
    cn: Seq<char>,
    ns: Seq<char>,
    n: Seq<char>,
) -> Seq<char> {
    replace_str(transform_spec(s, cn, ns, n), "Cargo.toml._"@, "Cargo.toml"@)
}

/// One literal replacement, with the pattern and replacement as string
/// slices.
fn rep(v: &Vec<char>, pat: &str, to: &str) -> (r: Vec<char>)
    requires
        pat@.len() > 0,
    ensures
        r@ == replace_str(v@, pat@, to@),
{
    let p = str_chars(pat);
    let t = str_chars(to);
    replace_chars(v, &p, &t)
}

/// Rewrites every placeholder token in `s` to the corresponding rendering of
/// the caller's component and package identifiers.
pub fn transform(s: &str, parameters: &ExampleParameters) -> (r: String)
    ensures
        r@ == transform_spec(
            s@,
            parameters.template_name@,
            parameters.package_name.namespace@,
            parameters.package_name.name@,
        ),
{
    proof {
        reveal_strlit("component-name");
        reveal_strlit("ComponentName");
        reveal_strlit("component_name");
        reveal_strlit("pack::name");
        reveal_strlit("pack:name");
        reveal_strlit("pack_name");
        reveal_strlit("pack-name");
        reveal_strlit("pack/name");
        reveal_strlit("PackName");
        reveal_strlit("pack-ns");
        reveal_strlit("PackNs");
    }
    let cn = &parameters.template_name;
    let pn = &parameters.package_name;
    let v0 = str_chars(s);
    let v1 = rep(&v0, "component-name", cn.to_kebab_case().as_str());
    let v2 = rep(&v1, "ComponentName", cn.to_pascal_case().as_str());
    let v3 = rep(&v2, "component_name", cn.to_snake_case().as_str());
    let v4 = rep(&v3, "pack::name", pn.to_string_with_double_colon().as_str());
    let v5 = rep(&v4, "pack:name", pn.to_string_with_colon().as_str());
    let v6 = rep(&v5, "pack_name", pn.to_snake_case().as_str());
    let v7 = rep(&v6, "pack-name", pn.to_kebab_case().as_str());
    let v8 = rep(&v7, "pack/name", pn.to_string_with_slash().as_str());
    let v9 = rep(&v8, "PackName", pn.to_pascal_case().as_str());
    let v10 = rep(&v9, "pack-ns", pn.namespace_string().as_str());
    let v11 = rep(&v10, "PackNs", pn.namespace_title_case().as_str());
    chars_to_string(&v11)
}

/// Rewrites the placeholder tokens in an entry name, then undoes the
/// build-manifest disguise suffix in the result.
pub fn file_name_transform(s: &str, parameters: &ExampleParameters) -> (r: String)
    ensures
        r@ == file_name_transform_spec(
            s@,
            parameters.template_name@,
            parameters.package_name.namespace@,
            parameters.package_name.name@,
        ),
{
    proof {
        reveal_strlit("Cargo.toml._");
    }
    let t = transform(s, parameters);
    let v = str_chars(t.as_str());
    let v2 = rep(&v, "Cargo.toml._", "Cargo.toml");
    chars_to_string(&v2)
}

} // verus!
