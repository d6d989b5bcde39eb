//! What a project is, and which sites a configuration serves.
//!
//! Detection reads a project's manifests: `composer.json` (as text),
//! `package.json` (as the string values of its two dependency sections), and
//! which well-known files are present in its root. Reading them is the
//! caller's part; the decisions are here.

use vstd::prelude::*;

use crate::config::{config_primary_tld, LocalConfig, Link};
use crate::paths::{join, path_join};
use crate::text::{
    copy_string, copy_strings, find, from_chars, has_prefix, is_ws, lemma_find_from, push_str,
    slice_chars, split_char, split_on, str_eq, str_views, to_chars, to_lower, to_lowercase, trim,
    trim_str, find_chars, sorted_unique,
};
use crate::xdebug::Mode;

verus! {

// ------------------------------------------------------------------- kinds

/// The coarse bucket a project falls into: what it *is*, as distinct from
/// which framework it uses.
#[derive(Debug, Clone, Copy, PartialEq, Eq)]
pub enum ProjectKind {
    /// Served by PHP.
    Php,
    /// A JavaScript project with no PHP behind it.
    Node,
    /// Plain files, no runtime.
    Static,
    /// A project in some other language.
    Other,
    /// Nothing recognisable.
    Unknown,
}

/// The name of a kind.
pub open spec fn kind_name(k: ProjectKind) -> Seq<char> {
    match k {
        ProjectKind::Php => "php"@,
        ProjectKind::Node => "node"@,
        ProjectKind::Static => "static"@,
        ProjectKind::Other => "other"@,
        ProjectKind::Unknown => "unknown"@,
    }
}

/// The kind whose name is exactly `s`.
pub open spec fn kind_named(s: Seq<char>) -> Option<ProjectKind> {
    if s == "php"@ {
        Some(ProjectKind::Php)
    } else if s == "node"@ {
        Some(ProjectKind::Node)
    } else if s == "static"@ {
        Some(ProjectKind::Static)
    } else if s == "other"@ {
        Some(ProjectKind::Other)
    } else if s == "unknown"@ {
        Some(ProjectKind::Unknown)
    } else {
        None
    }
}

impl Default for ProjectKind {
    fn default() -> (r: ProjectKind)
        ensures
            r == ProjectKind::Unknown,
    {
        ProjectKind::Unknown
    }
}

impl ProjectKind {
    /// The kind's name.
    pub fn as_str(self) -> (r: &'static str)
        ensures
            r@ == kind_name(self),
    {
        match self {
            ProjectKind::Php => "php",
            ProjectKind::Node => "node",
            ProjectKind::Static => "static",
            ProjectKind::Other => "other",
            ProjectKind::Unknown => "unknown",
        }
    }

    /// Parse a kind name, trimmed and in any case.
    pub fn parse(s: &str) -> (r: Option<ProjectKind>)
        ensures
            r == kind_named(to_lowercase(trim(s@))),
    {
        let t = trim_str(s);
        let l = to_lower(t.as_str());
        if str_eq(l.as_str(), "php") {
            Some(ProjectKind::Php)
        } else if str_eq(l.as_str(), "node") {
            Some(ProjectKind::Node)
        } else if str_eq(l.as_str(), "static") {
            Some(ProjectKind::Static)
        } else if str_eq(l.as_str(), "other") {
            Some(ProjectKind::Other)
        } else if str_eq(l.as_str(), "unknown") {
            Some(ProjectKind::Unknown)
        } else {
            None
        }
    }
}

/// Every kind's name parses back to that kind.
pub proof fn lemma_kind_name_round_trip(k: ProjectKind)
    ensures
        kind_named(to_lowercase(trim(kind_name(k)))) == Some(k),
{
    let n = kind_name(k);
    reveal_strlit("php");
    reveal_strlit("node");
    reveal_strlit("static");
    reveal_strlit("other");
    reveal_strlit("unknown");
    crate::text::lemma_trim_start_at(n, 0);
    crate::text::lemma_trim_end_at(n, n.len() as int);
    assert(trim(n) =~= n);
    assert(crate::text::ascii_lower(n) =~= n);
}

/// Parsing a kind gives the same answer as parsing its trimmed, lowercased
/// form, for every text whose trimmed form is ASCII (the kind names are).
pub proof fn lemma_kind_parse_settled(s: Seq<char>)
    requires
        crate::text::all_ascii(trim(s)),
    ensures
        kind_named(to_lowercase(trim(s))) == kind_named(to_lowercase(trim(to_lowercase(trim(s))))),
        kind_named(to_lowercase(trim(s))) is Some ==> to_lowercase(trim(s)) == kind_name(
            kind_named(to_lowercase(trim(s))).unwrap(),
        ),
{
    crate::text::lemma_lower_trim_settled(s);
}

/// Everything detection can say about a project from its manifests.
#[derive(Debug, Clone, PartialEq, Eq)]
pub struct ProjectMeta {
    /// The headline label, e.g. `Laravel (^13.0)`, `Next.js (^15.0)`.
    pub framework: Option<String>,
    pub kind: ProjectKind,
    /// composer.json `require.php`.
    pub requires_php: Option<String>,
    /// The JavaScript framework, when it isn't the headline.
    pub node_framework: Option<String>,
    /// The PHP-side stack on top of the framework (Filament, Inertia, …).
    pub stack: Option<String>,
}

/// The view of an optional `String`.
pub open spec fn opt_view(o: Option<String>) -> Option<Seq<char>> {
    match o {
        Some(s) => Some(s@),
        None => None,
    }
}

/// A project's metadata as plain values.
pub type MetaView = (Option<Seq<char>>, ProjectKind, Option<Seq<char>>, Option<Seq<char>>, Option<Seq<char>>);

/// The metadata as plain values.
pub open spec fn meta_view(m: ProjectMeta) -> MetaView {
    (opt_view(m.framework), m.kind, opt_view(m.requires_php), opt_view(m.node_framework), opt_view(m.stack))
}

// --------------------------------------------------------------- composer

/// A package's version constraint from `composer.json` text: after the first
/// `"pkg"`, the first `:`, then the text between the next two `"` (possibly
/// empty). `require` and `require-dev` are read alike.
pub open spec fn composer_version(text: Seq<char>, pkg: Seq<char>) -> Option<Seq<char>> {
    let key = seq!['"'] + pkg + seq!['"'];
    match find(text, key) {
        None => None,
        Some(at) => {
            let after = text.skip(at + key.len());
            match find(after, seq![':']) {
                None => None,
                Some(c) => {
                    let rest = after.skip(c + 1);
                    match find(rest, seq!['"']) {
                        None => None,
                        Some(q1) => {
                            let v = rest.skip(q1 + 1);
                            match find(v, seq!['"']) {
                                None => None,
                                Some(q2) => Some(v.take(q2)),
                            }
                        },
                    }
                },
            }
        },
    }
}

/// The first index of `needle` in `hay`, with its bounds.
fn find_in(hay: &[char], needle: &[char]) -> (r: Option<usize>)
    ensures
        r matches Some(k) ==> find(hay@, needle@) == Some(k as int) && k + needle@.len() <= hay@.len(),
        r is None ==> find(hay@, needle@) is None,
{
    let r = find_chars(hay, needle);
    proof {
        lemma_find_from(hay@, needle@, 0);
    }
    r
}

/// The text after the first `needle`, or `None`.
fn after_first(hay: &[char], needle: &[char]) -> (r: Option<Vec<char>>)
    ensures
        r matches Some(v) ==> find(hay@, needle@) matches Some(k) && v@ == hay@.skip(k + needle@.len()),
        r is None ==> find(hay@, needle@) is None,
{
    let n = hay.len();
    match find_in(hay, needle) {
        Some(k) => {
            let v = slice_chars(hay, k + needle.len(), n);
            assert(v@ =~= hay@.skip(k + needle@.len()));
            Some(v)
        },
        None => None,
    }
}

/// A package's version constraint from `composer.json` text.
fn composer_version_of(text: &[char], pkg: &str) -> (r: Option<Vec<char>>)
    ensures
        r matches Some(v) ==> composer_version(text@, pkg@) == Some(v@),
        r is None ==> composer_version(text@, pkg@) is None,
{
    let mut key: Vec<char> = Vec::new();
    key.push('"');
    let p = to_chars(pkg);
    let mut i: usize = 0;
    while i < p.len()
        invariant
            i <= p.len(),
            key@ == seq!['"'] + p@.take(i as int),
        decreases p.len() - i,
    {
        key.push(p[i]);
        i = i + 1;
        assert(key@ =~= seq!['"'] + p@.take(i as int));
    }
    key.push('"');
    assert(p@.take(p.len() as int) =~= p@);
    assert(key@ =~= seq!['"'] + pkg@ + seq!['"']);
    let after = match after_first(text, &key) {
        Some(a) => a,
        None => return None,
    };
    let colon = [':'];
    assert(colon@ =~= seq![':']);
    let rest = match after_first(&after, &colon) {
        Some(r) => r,
        None => return None,
    };
    let quote = ['"'];
    assert(quote@ =~= seq!['"']);
    let v = match after_first(&rest, &quote) {
        Some(v) => v,
        None => return None,
    };
    match find_in(&v, &quote) {
        Some(q2) => {
            let s = slice_chars(&v, 0, q2);
            assert(s@ =~= v@.take(q2 as int));
            Some(s)
        },
        None => None,
    }
}

/// `label`, or `label (version)` when there is a version.
pub open spec fn labelled(label: Seq<char>, version: Seq<char>) -> Seq<char> {
    if version.len() == 0 {
        label
    } else {
        label + " ("@ + version + ")"@
    }
}

fn labelled_of(label: &str, version: &[char]) -> (r: String)
    ensures
        r@ == labelled(label@, version@),
{
    let mut s = String::from_str(label);
    if version.len() > 0 {
        push_str(&mut s, " (");
        push_str(&mut s, from_chars(version).as_str());
        push_str(&mut s, ")");
    }
    s
}

/// PHP stacks layered on a framework, most determining first: Filament is
/// built on Livewire, and Jetstream ships either Livewire or Inertia, so the
/// more specific choice has to win.
pub open spec fn php_stacks() -> Seq<(Seq<char>, Seq<char>)> {
    seq![
        ("filament/filament"@, "Filament"@),
        ("laravel/nova"@, "Nova"@),
        ("inertiajs/inertia-laravel"@, "Inertia"@),
        ("livewire/volt"@, "Volt"@),
        ("livewire/livewire"@, "Livewire"@),
        ("laravel/jetstream"@, "Jetstream"@),
        ("laravel/breeze"@, "Breeze"@),
    ]
}

fn php_stack_entry(i: usize) -> (r: (&'static str, &'static str))
    requires
        i < 7,
    ensures
        r.0@ == php_stacks()[i as int].0,
        r.1@ == php_stacks()[i as int].1,
{
    match i {
        0 => ("filament/filament", "Filament"),
        1 => ("laravel/nova", "Nova"),
        2 => ("inertiajs/inertia-laravel", "Inertia"),
        3 => ("livewire/volt", "Volt"),
        4 => ("livewire/livewire", "Livewire"),
        5 => ("laravel/jetstream", "Jetstream"),
        _ => ("laravel/breeze", "Breeze"),
    }
}

/// The first stack, from position `i` on, whose package the composer text
/// names, labelled with its version.
pub open spec fn php_stack_from(text: Seq<char>, i: int) -> Option<Seq<char>>
    decreases 7 - i,
{
    if i < 0 || i >= 7 {
        None
    } else {
        match composer_version(text, php_stacks()[i].0) {
            Some(v) => Some(labelled(php_stacks()[i].1, v)),
            None => php_stack_from(text, i + 1),
        }
    }
}

/// The stack a composer project layers on its framework, with its version.
pub fn php_stack(text: &str) -> (r: Option<String>)
    ensures
        opt_view(r) == php_stack_from(text@, 0),
{
    let cs = to_chars(text);
    let mut i: usize = 0;
    while i < 7
        invariant
            i <= 7,
            cs@ == text@,
            php_stack_from(text@, 0) == php_stack_from(text@, i as int),
        decreases 7 - i,
    {
        let (pkg, label) = php_stack_entry(i);
        if let Some(v) = composer_version_of(&cs, pkg) {
            return Some(labelled_of(label, &v));
        }
        i = i + 1;
    }
    None
}

/// The framework label from `composer.json` text; a composer project with no
/// framework recognised is still `PHP (Composer)`.
pub open spec fn composer_framework(text: Seq<char>) -> Seq<char> {
    if composer_version(text, "laravel/framework"@) is Some {
        "Laravel"@ + " ("@ + composer_version(text, "laravel/framework"@)->0 + ")"@
    } else if composer_version(text, "symfony/framework-bundle"@) is Some {
        "Symfony"@ + " ("@ + composer_version(text, "symfony/framework-bundle"@)->0 + ")"@
    } else if composer_version(text, "symfony/symfony"@) is Some {
        "Symfony"@ + " ("@ + composer_version(text, "symfony/symfony"@)->0 + ")"@
    } else if composer_version(text, "tempest/framework"@) is Some {
        "Tempest"@ + " ("@ + composer_version(text, "tempest/framework"@)->0 + ")"@
    } else if composer_version(text, "statamic/cms"@) is Some {
        "Statamic"@
    } else if composer_version(text, "craftcms/cms"@) is Some {
        "Craft"@
    } else if composer_version(text, "drupal/core"@) is Some || composer_version(text, "drupal/core-recommended"@) is Some {
        "Drupal"@
    } else if composer_version(text, "slim/slim"@) is Some {
        "Slim"@
    } else if composer_version(text, "cakephp/cakephp"@) is Some {
        "CakePHP"@
    } else {
        "PHP (Composer)"@
    }
}

fn versioned(label: &str, v: &[char]) -> (r: String)
    ensures
        r@ == label@ + " ("@ + v@ + ")"@,
{
    let mut s = String::from_str(label);
    push_str(&mut s, " (");
    push_str(&mut s, from_chars(v).as_str());
    push_str(&mut s, ")");
    s
}

/// The framework label from `composer.json` text.
pub fn framework_from_composer(text: &str) -> (r: String)
    ensures
        r@ == composer_framework(text@),
{
    let cs = to_chars(text);
    if let Some(v) = composer_version_of(&cs, "laravel/framework") {
        return versioned("Laravel", &v);
    }
    if let Some(v) = composer_version_of(&cs, "symfony/framework-bundle") {
        return versioned("Symfony", &v);
    }
    if let Some(v) = composer_version_of(&cs, "symfony/symfony") {
        return versioned("Symfony", &v);
    }
    if let Some(v) = composer_version_of(&cs, "tempest/framework") {
        return versioned("Tempest", &v);
    }
    if composer_version_of(&cs, "statamic/cms").is_some() {
        return String::from_str("Statamic");
    }
    if composer_version_of(&cs, "craftcms/cms").is_some() {
        return String::from_str("Craft");
    }
    if composer_version_of(&cs, "drupal/core").is_some() || composer_version_of(
        &cs,
        "drupal/core-recommended",
    ).is_some() {
        return String::from_str("Drupal");
    }
    if composer_version_of(&cs, "slim/slim").is_some() {
        return String::from_str("Slim");
    }
    if composer_version_of(&cs, "cakephp/cakephp").is_some() {
        return String::from_str("CakePHP");
    }
    String::from_str("PHP (Composer)")
}

/// The `require.php` constraint from `composer.json` text: from the first
/// `"require"` on, the first `"php"`, then after the next `:` the text between
/// the next two `"`.
pub open spec fn composer_required_php(text: Seq<char>) -> Option<Seq<char>> {
    match find(text, "\"require\""@) {
        None => None,
        Some(r) => {
            let after = text.skip(r);
            match find(after, "\"php\""@) {
                None => None,
                Some(p) => {
                    let rest = after.skip(p + 5);
                    match find(rest, seq![':']) {
                        None => None,
                        Some(c) => {
                            let val = rest.skip(c + 1);
                            match find(val, seq!['"']) {
                                None => None,
                                Some(q1) => {
                                    let v = val.skip(q1 + 1);
                                    match find(v, seq!['"']) {
                                        None => None,
                                        Some(q2) => Some(v.take(q2)),
                                    }
                                },
                            }
                        },
                    }
                },
            }
        },
    }
}

/// The `require.php` constraint from `composer.json` text.
pub fn required_php_from_composer(text: &str) -> (r: Option<String>)
    ensures
        opt_view(r) == composer_required_php(text@),
{
    let cs = to_chars(text);
    let req = to_chars("\"require\"");
    let n = cs.len();
    let r = match find_in(&cs, &req) {
        Some(r) => r,
        None => return None,
    };
    let after = slice_chars(&cs, r, n);
    assert(after@ =~= cs@.skip(r as int));
    let php = to_chars("\"php\"");
    proof {
        reveal_strlit("\"php\"");
    }
    assert(php@.len() == 5);
    let rest = match after_first(&after, &php) {
        Some(x) => x,
        None => return None,
    };
    let colon = [':'];
    assert(colon@ =~= seq![':']);
    let val = match after_first(&rest, &colon) {
        Some(x) => x,
        None => return None,
    };
    let quote = ['"'];
    assert(quote@ =~= seq!['"']);
    let v = match after_first(&val, &quote) {
        Some(x) => x,
        None => return None,
    };
    match find_in(&v, &quote) {
        Some(q2) => {
            let s = slice_chars(&v, 0, q2);
            assert(s@ =~= v@.take(q2 as int));
            Some(from_chars(&s))
        },
        None => None,
    }
}


// ---------------------------------------------------------------- package.json

/// What detection reads of a `package.json`: the entries of its
/// `dependencies` and `devDependencies` objects, each with its value when that
/// value is a JSON string.
#[derive(Debug, Clone)]
pub struct PackageJson {
    pub dependencies: Vec<(String, Option<String>)>,
    pub dev_dependencies: Vec<(String, Option<String>)>,
}

/// The entries of a dependency section as plain values.
pub open spec fn deps_view(v: Seq<(String, Option<String>)>) -> Seq<(Seq<char>, Option<Seq<char>>)> {
    v.map_values(|e: (String, Option<String>)| (e.0@, opt_view(e.1)))
}

/// The entry for `pkg` in a section: `Some(value)` when present.
pub open spec fn dep_lookup(entries: Seq<(Seq<char>, Option<Seq<char>>)>, pkg: Seq<char>) -> Option<Option<Seq<char>>>
    decreases entries.len(),
{
    if entries.len() == 0 {
        None
    } else if entries[0].0 == pkg {
        Some(entries[0].1)
    } else {
        dep_lookup(entries.drop_first(), pkg)
    }
}

/// The string version of `pkg`: from `dependencies` when it has a string
/// there, else from `devDependencies`.
pub open spec fn package_version(
    deps: Seq<(Seq<char>, Option<Seq<char>>)>,
    dev: Seq<(Seq<char>, Option<Seq<char>>)>,
    pkg: Seq<char>,
) -> Option<Seq<char>> {
    match dep_lookup(deps, pkg) {
        Some(Some(v)) => Some(v),
        _ => match dep_lookup(dev, pkg) {
            Some(Some(v)) => Some(v),
            _ => None,
        },
    }
}

fn dep_lookup_of(entries: &Vec<(String, Option<String>)>, pkg: &str) -> (r: Option<String>)
    ensures
        r matches Some(v) ==> dep_lookup(deps_view(entries@), pkg@) == Some(Some(v@)),
        r is None ==> !(dep_lookup(deps_view(entries@), pkg@) matches Some(Some(_))),
{
    let ghost ev = deps_view(entries@);
    let mut i: usize = 0;
    assert(ev.skip(0) =~= ev);
    while i < entries.len()
        invariant
            i <= entries.len(),
            ev == deps_view(entries@),
            dep_lookup(ev, pkg@) == dep_lookup(ev.skip(i as int), pkg@),
        decreases entries.len() - i,
    {
        proof {
            assert(ev.skip(i as int)[0] == ev[i as int]);
            assert(ev.skip(i as int).drop_first() =~= ev.skip(i + 1));
        }
        if str_eq(entries[i].0.as_str(), pkg) {
            return match &entries[i].1 {
                Some(v) => Some(copy_string(v)),
                None => None,
            };
        }
        i = i + 1;
    }
    None
}

/// JavaScript frameworks, most specific first: every Next.js app depends on
/// `react` and every Nuxt app on `vue`, so the meta-framework is checked
/// before the view library, and the view library before the build tool.
pub open spec fn node_frameworks() -> Seq<(Seq<char>, Seq<char>)> {
    seq![
        ("next"@, "Next.js"@),
        ("nuxt"@, "Nuxt"@),
        ("@sveltejs/kit"@, "SvelteKit"@),
        ("astro"@, "Astro"@),
        ("@remix-run/react"@, "Remix"@),
        ("gatsby"@, "Gatsby"@),
        ("@angular/core"@, "Angular"@),
        ("@docusaurus/core"@, "Docusaurus"@),
        ("vitepress"@, "VitePress"@),
        ("vuepress"@, "VuePress"@),
        ("@11ty/eleventy"@, "Eleventy"@),
        ("@builder.io/qwik"@, "Qwik"@),
        ("@nestjs/core"@, "NestJS"@),
        ("expo"@, "Expo"@),
        ("react-native"@, "React Native"@),
        ("electron"@, "Electron"@),
        ("fastify"@, "Fastify"@),
        ("hono"@, "Hono"@),
        ("koa"@, "Koa"@),
        ("express"@, "Express"@),
        ("svelte"@, "Svelte"@),
        ("solid-js"@, "Solid"@),
        ("vue"@, "Vue"@),
        ("react"@, "React"@),
        ("vite"@, "Vite"@),
        ("laravel-mix"@, "Mix"@),
        ("webpack"@, "Webpack"@),
    ]
}

fn node_framework_entry(i: usize) -> (r: (&'static str, &'static str))
    requires
        i < 27,
    ensures
        r.0@ == node_frameworks()[i as int].0,
        r.1@ == node_frameworks()[i as int].1,
{
    match i {
        0 => ("next", "Next.js"),
        1 => ("nuxt", "Nuxt"),
        2 => ("@sveltejs/kit", "SvelteKit"),
        3 => ("astro", "Astro"),
        4 => ("@remix-run/react", "Remix"),
        5 => ("gatsby", "Gatsby"),
        6 => ("@angular/core", "Angular"),
        7 => ("@docusaurus/core", "Docusaurus"),
        8 => ("vitepress", "VitePress"),
        9 => ("vuepress", "VuePress"),
        10 => ("@11ty/eleventy", "Eleventy"),
        11 => ("@builder.io/qwik", "Qwik"),
        12 => ("@nestjs/core", "NestJS"),
        13 => ("expo", "Expo"),
        14 => ("react-native", "React Native"),
        15 => ("electron", "Electron"),
        16 => ("fastify", "Fastify"),
        17 => ("hono", "Hono"),
        18 => ("koa", "Koa"),
        19 => ("express", "Express"),
        20 => ("svelte", "Svelte"),
        21 => ("solid-js", "Solid"),
        22 => ("vue", "Vue"),
        23 => ("react", "React"),
        24 => ("vite", "Vite"),
        25 => ("laravel-mix", "Mix"),
        _ => ("webpack", "Webpack"),
    }
}

/// The first framework, from position `i` on, that the package depends on,
/// labelled with its version.
pub open spec fn node_framework_from(
    deps: Seq<(Seq<char>, Option<Seq<char>>)>,
    dev: Seq<(Seq<char>, Option<Seq<char>>)>,
    i: int,
) -> Option<Seq<char>>
    decreases 27 - i,
{
    if i < 0 || i >= 27 {
        None
    } else {
        match package_version(deps, dev, node_frameworks()[i].0) {
            Some(v) => Some(labelled(node_frameworks()[i].1, v)),
            None => node_framework_from(deps, dev, i + 1),
        }
    }
}

/// The JavaScript framework a package describes, looking in
/// `dependencies` and `devDependencies` alike.
pub open spec fn package_framework(p: PackageJson) -> Option<Seq<char>> {
    node_framework_from(deps_view(p.dependencies@), deps_view(p.dev_dependencies@), 0)
}

/// The JavaScript framework a `package.json` describes, with its version
/// constraint.
pub fn node_framework_from_package(p: &PackageJson) -> (r: Option<String>)
    ensures
        opt_view(r) == package_framework(*p),
{
    let ghost deps = deps_view(p.dependencies@);
    let ghost dev = deps_view(p.dev_dependencies@);
    let mut i: usize = 0;
    while i < 27
        invariant
            i <= 27,
            deps == deps_view(p.dependencies@),
            dev == deps_view(p.dev_dependencies@),
            node_framework_from(deps, dev, 0) == node_framework_from(deps, dev, i as int),
        decreases 27 - i,
    {
        let (pkg, label) = node_framework_entry(i);
        let v = match dep_lookup_of(&p.dependencies, pkg) {
            Some(v) => Some(v),
            None => dep_lookup_of(&p.dev_dependencies, pkg),
        };
        if let Some(v) = v {
            let vc = to_chars(v.as_str());
            return Some(labelled_of(label, &vc));
        }
        i = i + 1;
    }
    None
}

// ----------------------------------------------------------- file evidence

/// Whether `name` is among `present`.
pub fn has_file(present: &[String], name: &str) -> (r: bool)
    ensures
        r == str_views(present@).contains(name@),
{
    crate::text::has_string(present, name)
}

/// A PHP project without a `composer.json`: WordPress by its config or
/// loader, else a bare `index.php`.
pub open spec fn php_without_composer(present: Seq<Seq<char>>) -> Option<Seq<char>> {
    if present.contains("wp-config.php"@) || present.contains("wp-load.php"@) {
        Some("WordPress"@)
    } else if present.contains("index.php"@) {
        Some("PHP"@)
    } else {
        None
    }
}

/// Framework detection for a project without a readable `composer.json`,
/// from the names of the files in its root.
pub fn framework_without_composer(present: &[String]) -> (r: Option<String>)
    ensures
        opt_view(r) == php_without_composer(str_views(present@)),
{
    if has_file(present, "wp-config.php") || has_file(present, "wp-load.php") {
        Some(String::from_str("WordPress"))
    } else if has_file(present, "index.php") {
        Some(String::from_str("PHP"))
    } else {
        None
    }
}

/// Manifests of languages dpl doesn't serve, checked last.
pub open spec fn other_manifests() -> Seq<(Seq<char>, Seq<char>)> {
    seq![
        ("Cargo.toml"@, "Rust"@),
        ("go.mod"@, "Go"@),
        ("Gemfile"@, "Ruby"@),
        ("pyproject.toml"@, "Python"@),
        ("requirements.txt"@, "Python"@),
        ("Package.swift"@, "Swift"@),
        ("pubspec.yaml"@, "Dart"@),
        ("mix.exs"@, "Elixir"@),
    ]
}

fn other_manifest_entry(i: usize) -> (r: (&'static str, &'static str))
    requires
        i < 8,
    ensures
        r.0@ == other_manifests()[i as int].0,
        r.1@ == other_manifests()[i as int].1,
{
    match i {
        0 => ("Cargo.toml", "Rust"),
        1 => ("go.mod", "Go"),
        2 => ("Gemfile", "Ruby"),
        3 => ("pyproject.toml", "Python"),
        4 => ("requirements.txt", "Python"),
        5 => ("Package.swift", "Swift"),
        6 => ("pubspec.yaml", "Dart"),
        _ => ("mix.exs", "Elixir"),
    }
}

/// The language of the first manifest present, from position `i` on.
pub open spec fn other_language_from(present: Seq<Seq<char>>, i: int) -> Option<Seq<char>>
    decreases 8 - i,
{
    if i < 0 || i >= 8 {
        None
    } else if present.contains(other_manifests()[i].0) {
        Some(other_manifests()[i].1)
    } else {
        other_language_from(present, i + 1)
    }
}

/// The other language a project is written in, by its manifest.
pub fn other_language(present: &[String]) -> (r: Option<&'static str>)
    ensures
        r matches Some(l) ==> other_language_from(str_views(present@), 0) == Some(l@),
        r is None ==> other_language_from(str_views(present@), 0) is None,
{
    let mut i: usize = 0;
    while i < 8
        invariant
            i <= 8,
            other_language_from(str_views(present@), 0) == other_language_from(str_views(present@), i as int),
        decreases 8 - i,
    {
        let (file, label) = other_manifest_entry(i);
        if has_file(present, file) {
            return Some(label);
        }
        i = i + 1;
    }
    None
}

// --------------------------------------------------------------- detection

/// What detection says of a project. PHP wins the headline whenever a
/// `composer.json` is present; then a PHP entry point; then any
/// `package.json` (a Node project even with nothing recognisable in it); then
/// an `index.html`; then another language's manifest.
pub open spec fn project_meta(
    composer: Option<Seq<char>>,
    package_present: bool,
    package: Option<PackageJson>,
    present: Seq<Seq<char>>,
) -> MetaView {
    let node = match package {
        Some(p) => package_framework(p),
        None => None,
    };
    match composer {
        Some(text) => (
            Some(composer_framework(text)),
            ProjectKind::Php,
            composer_required_php(text),
            node,
            php_stack_from(text, 0),
        ),
        None => if php_without_composer(present) is Some {
            (php_without_composer(present), ProjectKind::Php, None, node, None)
        } else if package_present {
            (if node is Some { node } else { Some("Node"@) }, ProjectKind::Node, None, node, None)
        } else if present.contains("index.html"@) {
            (Some("Static"@), ProjectKind::Static, None, None, None)
        } else if other_language_from(present, 0) is Some {
            (other_language_from(present, 0), ProjectKind::Other, None, None, None)
        } else {
            (None, ProjectKind::Unknown, None, None, None)
        },
    }
}

fn copy_opt(o: &Option<String>) -> (r: Option<String>)
    ensures
        opt_view(r) == opt_view(*o),
{
    match o {
        Some(s) => Some(copy_string(s)),
        None => None,
    }
}

/// Identify a project from its manifests: the text of its `composer.json`
/// (`None` when missing or unreadable), whether it has a `package.json`, what
/// that file's dependency sections hold (`None` when it can't be read as
/// JSON), and the names of the files in its root.
pub fn detect_project(
    composer: Option<&str>,
    package_present: bool,
    package: Option<&PackageJson>,
    present: &[String],
) -> (r: ProjectMeta)
    ensures
        meta_view(r) == project_meta(
            crate::node::opt_str(composer),
            package_present,
            match package {
                Some(p) => Some(*p),
                None => None,
            },
            str_views(present@),
        ),
{
    let node = match package {
        Some(p) => node_framework_from_package(p),
        None => None,
    };
    if let Some(text) = composer {
        return ProjectMeta {
            framework: Some(framework_from_composer(text)),
            kind: ProjectKind::Php,
            requires_php: required_php_from_composer(text),
            node_framework: node,
            stack: php_stack(text),
        };
    }
    if let Some(php) = framework_without_composer(present) {
        return ProjectMeta {
            framework: Some(php),
            kind: ProjectKind::Php,
            requires_php: None,
            node_framework: node,
            stack: None,
        };
    }
    if package_present {
        let framework = match &node {
            Some(n) => Some(copy_string(n)),
            None => Some(String::from_str("Node")),
        };
        return ProjectMeta {
            framework,
            kind: ProjectKind::Node,
            requires_php: None,
            node_framework: node,
            stack: None,
        };
    }
    if has_file(present, "index.html") {
        return ProjectMeta {
            framework: Some(String::from_str("Static")),
            kind: ProjectKind::Static,
            requires_php: None,
            node_framework: None,
            stack: None,
        };
    }
    if let Some(label) = other_language(present) {
        return ProjectMeta {
            framework: Some(String::from_str(label)),
            kind: ProjectKind::Other,
            requires_php: None,
            node_framework: None,
            stack: None,
        };
    }
    ProjectMeta { framework: None, kind: ProjectKind::Unknown, requires_php: None, node_framework: None, stack: None }
}

/// Framework label and required-PHP constraint, from one reading of the
/// manifests (see [`detect_project`]).
pub fn detect_meta(
    composer: Option<&str>,
    package_present: bool,
    package: Option<&PackageJson>,
    present: &[String],
) -> (r: (Option<String>, Option<String>))
    ensures
        (opt_view(r.0), opt_view(r.1)) == ({
            let m = project_meta(
                crate::node::opt_str(composer),
                package_present,
                match package {
                    Some(p) => Some(*p),
                    None => None,
                },
                str_views(present@),
            );
            (m.0, m.2)
        }),
{
    let m = detect_project(composer, package_present, package, present);
    (m.framework, m.requires_php)
}

/// The framework label of a project read on its own: from its
/// `composer.json` text when it has one, else from the well-known files.
pub open spec fn framework_of(composer: Option<Seq<char>>, present: Seq<Seq<char>>) -> Option<Seq<char>> {
    match composer {
        Some(t) => Some(composer_framework(t)),
        None => php_without_composer(present),
    }
}

/// The `require.php` constraint of a project's `composer.json` text, if it
/// has one.
pub open spec fn required_php_of(composer: Option<Seq<char>>) -> Option<Seq<char>> {
    match composer {
        Some(t) => composer_required_php(t),
        None => None,
    }
}

/// A project's framework from its `composer.json` text (`None` when missing
/// or unreadable), else from the names of the files in its root.
pub fn detect_framework(composer: Option<&str>, present: &[String]) -> (r: Option<String>)
    ensures
        opt_view(r) == framework_of(crate::node::opt_str(composer), str_views(present@)),
{
    match composer {
        Some(text) => Some(framework_from_composer(text)),
        None => framework_without_composer(present),
    }
}

/// The PHP version constraint a project requires, from its `composer.json`
/// text (`None` when missing or unreadable).
pub fn detect_required_php(composer: Option<&str>) -> (r: Option<String>)
    ensures
        opt_view(r) == required_php_of(crate::node::opt_str(composer)),
{
    match composer {
        Some(text) => required_php_from_composer(text),
        None => None,
    }
}

/// Reading a project's manifests once agrees with the two separate readers:
/// for a project with a `composer.json`, or a PHP entry point without one,
/// [`detect_meta`]'s framework and required PHP are what
/// [`detect_framework`] and [`detect_required_php`] give.
pub proof fn lemma_meta_agrees(
    composer: Option<Seq<char>>,
    package_present: bool,
    package: Option<PackageJson>,
    present: Seq<Seq<char>>,
)
    requires
        composer is Some || php_without_composer(present) is Some,
    ensures
        project_meta(composer, package_present, package, present).0 == framework_of(composer, present),
        project_meta(composer, package_present, package, present).2 == required_php_of(composer),
{
}

// ------------------------------------------------------------------- sites

/// Where a site came from.
#[derive(Debug, Clone, Copy, PartialEq, Eq)]
pub enum SiteSource {
    Parked,
    Linked,
}

/// The name of a site source.
pub open spec fn source_name(s: SiteSource) -> Seq<char> {
    match s {
        SiteSource::Parked => "parked"@,
        SiteSource::Linked => "linked"@,
    }
}

impl SiteSource {
    /// `parked` or `linked`.
    pub fn as_str(&self) -> (r: &'static str)
        ensures
            r@ == source_name(*self),
    {
        match self {
            SiteSource::Parked => "parked",
            SiteSource::Linked => "linked",
        }
    }
}

/// A fully resolved site, ready to serve.
#[derive(Debug)]
pub struct ResolvedSite {
    /// Site name — the `<name>` in `<name>.test`.
    pub name: String,
    /// Project root on disk.
    pub path: String,
    /// Directory to serve from (`public/` if it exists, else `path`).
    pub docroot: String,
    /// Pinned PHP version, if any.
    pub php: Option<String>,
    /// Whether this site is served over HTTPS.
    pub secure: bool,
    /// Where the site came from.
    pub source: SiteSource,
    /// Primary TLD for this site's canonical host and URL.
    pub tld: String,
    /// Application-server runtime (`None`/`"fpm"` is php-fpm).
    pub runtime: Option<String>,
    /// Whether Octane workers reload when sources change; on by default.
    pub watch: bool,
    /// Effective Xdebug mode: the site's own, else the config default; an
    /// unparsable stored value degrades to `off`.
    pub xdebug: Mode,
    /// Whether the SPX profiler is on for this site.
    pub profile: bool,
    /// Absolute path of the opcache preload script, if configured.
    pub preload: Option<String>,
    /// package.json script run as this site's dev server.
    pub dev: Option<String>,
    /// User-assigned tags.
    pub tags: Vec<String>,
}

/// The host a site answers on: `<name>.<tld>`.
pub open spec fn host_of(name: Seq<char>, tld: Seq<char>) -> Seq<char> {
    name + seq!['.'] + tld
}

impl ResolvedSite {
    /// The hostname this site answers on, e.g. `blog.test`.
    pub fn host(&self) -> (r: String)
        ensures
            r@ == host_of(self.name@, self.tld@),
    {
        let mut h = copy_string(&self.name);
        h.push('.');
        push_str(&mut h, self.tld.as_str());
        h
    }

    /// The browser URL, honouring the secure flag.
    pub fn url(&self) -> (r: String)
        ensures
            r@ == (if self.secure { "https"@ } else { "http"@ }) + "://"@ + host_of(self.name@, self.tld@),
    {
        let mut u = String::from_str(if self.secure { "https" } else { "http" });
        push_str(&mut u, "://");
        push_str(&mut u, self.host().as_str());
        u
    }
}

/// A project's document root: `<path>/public` when that directory exists
/// (is among `dirs`), else the project root.
pub open spec fn docroot_of(path: Seq<char>, dirs: Seq<Seq<char>>) -> Seq<char> {
    if dirs.contains(path_join(path, "public"@)) {
        path_join(path, "public"@)
    } else {
        path
    }
}

/// Choose a site's document root: `public/` when it exists, else the root.
/// `dirs` lists the directories known to exist.
pub fn docroot_for(path: &str, dirs: &[String]) -> (r: String)
    ensures
        r@ == docroot_of(path@, str_views(dirs@)),
{
    let public = join(path, "public");
    if has_file(dirs, public.as_str()) {
        public
    } else {
        String::from_str(path)
    }
}

/// The last component of a path that names something, skipping empty and
/// `.` components.
pub open spec fn last_component(ps: Seq<Seq<char>>) -> Option<Seq<char>>
    decreases ps.len(),
{
    if ps.len() == 0 {
        None
    } else if ps.last().len() == 0 || ps.last() == "."@ {
        last_component(ps.drop_last())
    } else {
        Some(ps.last())
    }
}

/// A path's final component as `Path::file_name` gives it: `None` for an
/// empty path, the root, or a path ending in `..`.
pub open spec fn file_name(path: Seq<char>) -> Option<Seq<char>> {
    match last_component(split_on(path, '/')) {
        Some(c) => if c == ".."@ {
            None
        } else {
            Some(c)
        },
        None => None,
    }
}

/// A path's final component (see [`file_name`]).
pub fn file_name_of(path: &str) -> (r: Option<String>)
    ensures
        opt_view(r) == file_name(path@),
{
    let cs = to_chars(path);
    let ps = split_char(&cs, '/');
    let ghost pv = split_on(path@, '/');
    let dot = to_chars(".");
    let mut j: usize = ps.len();
    assert(pv.take(j as int) =~= pv);
    while j > 0 && (ps[j - 1].len() == 0 || crate::text::chars_eq(&ps[j - 1], &dot))
        invariant
            j <= ps@.len(),
            cs@ == path@,
            pv == split_on(path@, '/'),
            ps@.len() == pv.len(),
            forall|k: int| 0 <= k < ps@.len() ==> (#[trigger] ps@[k])@ == pv[k],
            dot@ == "."@,
            last_component(pv) == last_component(pv.take(j as int)),
        decreases j,
    {
        assert(pv.take(j as int).drop_last() =~= pv.take(j - 1));
        assert(pv.take(j as int).last() == ps@[j - 1]@);
        j = j - 1;
    }
    if j == 0 {
        assert(pv.take(0).len() == 0);
        return None;
    }
    assert(pv.take(j as int).last() == ps@[j - 1]@);
    let dotdot = to_chars("..");
    if crate::text::chars_eq(&ps[j - 1], &dotdot) {
        return None;
    }
    Some(from_chars(&ps[j - 1]))
}

/// Derive a site name from a directory path: its lowercased final component.
pub fn name_for(path: &str) -> (r: Option<String>)
    ensures
        r matches Some(n) ==> file_name(path@) matches Some(f) && n@ == to_lowercase(f),
        r is None ==> file_name(path@) is None,
{
    match file_name_of(path) {
        Some(f) => Some(to_lower(f.as_str())),
        None => None,
    }
}

/// The value stored under `key` in a list of `(key, values)` pairs: the first
/// pair with that key.
pub open spec fn lookup_tags(entries: Seq<(String, Vec<String>)>, key: Seq<char>) -> Option<Seq<Seq<char>>>
    decreases entries.len(),
{
    if entries.len() == 0 {
        None
    } else if entries[0].0@ == key {
        Some(str_views(entries[0].1@))
    } else {
        lookup_tags(entries.drop_first(), key)
    }
}

/// The index of the link named `key`: the first with that key.
pub open spec fn link_index(links: Seq<(String, Link)>, key: Seq<char>) -> Option<int>
    decreases links.len(),
{
    if links.len() == 0 {
        None
    } else if links.last().0@ == key && link_index(links.drop_last(), key) is None {
        Some(links.len() - 1)
    } else {
        link_index(links.drop_last(), key)
    }
}

/// A site's effective Xdebug mode: its own setting, else the default, parsed;
/// `off` when neither is set or the value does not parse.
pub open spec fn effective_mode(own: Option<Seq<char>>, default: Option<Seq<char>>) -> Seq<char> {
    let raw = if own is Some {
        own
    } else {
        default
    };
    match raw {
        Some(m) => match crate::xdebug::parse_outcome(m) {
            Ok(v) => v,
            Err(_) => "off"@,
        },
        None => "off"@,
    }
}

/// The first parked root, from position `i` on, with a directory named
/// `name` in it.
pub open spec fn parked_root(parked: Seq<Seq<char>>, name: Seq<char>, dirs: Seq<Seq<char>>, i: int) -> Option<int>
    decreases parked.len() - i,
{
    if i < 0 || i >= parked.len() {
        None
    } else if dirs.contains(path_join(parked[i], name)) {
        Some(i)
    } else {
        parked_root(parked, name, dirs, i + 1)
    }
}

/// Whether a site named `name` (already lowercased) resolves: a usable name,
/// and a link of that name or a parked directory of that name.
pub open spec fn resolves(c: LocalConfig, name: Seq<char>, dirs: Seq<Seq<char>>) -> bool {
    &&& name.len() > 0
    &&& !has_prefix(name, seq!['.'])
    &&& (link_index(c.links@, name) is Some || parked_root(str_views(c.parked@), name, dirs, 0) is Some)
}

/// What the resolved site holds, for a name (already lowercased) that
/// resolves: a link wins; else the first parked root with that directory.
pub open spec fn site_matches(s: ResolvedSite, c: LocalConfig, name: Seq<char>, dirs: Seq<Seq<char>>) -> bool {
    let tags = match lookup_tags(c.tags@, name) {
        Some(t) => t,
        None => Seq::empty(),
    };
    &&& s.name@ == name
    &&& s.tld@ == config_primary_tld(str_views(c.tlds@))
    &&& str_views(s.tags@) == tags
    &&& match link_index(c.links@, name) {
        Some(i) => {
            let l = c.links@[i].1;
            &&& s.path@ == l.path@
            &&& s.docroot@ == docroot_of(l.path@, dirs)
            &&& opt_view(s.php) == (if l.php is Some { opt_view(l.php) } else { opt_view(c.default_php) })
            &&& s.secure == l.secure
            &&& s.source == SiteSource::Linked
            &&& opt_view(s.runtime) == opt_view(l.runtime)
            &&& s.watch == (match l.watch {
                Some(w) => w,
                None => true,
            })
            &&& opt_view(s.dev) == opt_view(l.dev)
            &&& s.xdebug@ == effective_mode(opt_view(l.xdebug), opt_view(c.default_xdebug))
            &&& s.profile == l.profile
            &&& opt_view(s.preload) == (match l.preload {
                Some(p) => Some(path_join(l.path@, p@)),
                None => None,
            })
        },
        None => {
            let root = str_views(c.parked@)[parked_root(str_views(c.parked@), name, dirs, 0)->0];
            let path = path_join(root, name);
            &&& s.path@ == path
            &&& s.docroot@ == docroot_of(path, dirs)
            &&& opt_view(s.php) == opt_view(c.default_php)
            &&& !s.secure
            &&& s.source == SiteSource::Parked
            &&& s.runtime is None
            &&& s.watch
            &&& s.dev is None
            &&& s.xdebug@ == effective_mode(None, opt_view(c.default_xdebug))
            &&& !s.profile
            &&& s.preload is None
        },
    }
}

fn copy_opt_string(o: &Option<String>) -> (r: Option<String>)
    ensures
        opt_view(r) == opt_view(*o),
{
    match o {
        Some(s) => Some(copy_string(s)),
        None => None,
    }
}

/// The effective Xdebug mode of a site.
fn mode_of(own: &Option<String>, default: &Option<String>) -> (r: Mode)
    ensures
        r@ == effective_mode(opt_view(*own), opt_view(*default)),
{
    let raw = match own {
        Some(m) => Some(m),
        None => match default {
            Some(d) => Some(d),
            None => None,
        },
    };
    match raw {
        Some(m) => match Mode::parse(m.as_str()) {
            Ok(mode) => mode,
            Err(_) => Mode::off(),
        },
        None => Mode::off(),
    }
}

/// The tags stored under `key`, or none.
fn tags_for(entries: &Vec<(String, Vec<String>)>, key: &str) -> (r: Vec<String>)
    ensures
        str_views(r@) == match lookup_tags(entries@, key@) {
            Some(x) => x,
            None => Seq::<Seq<char>>::empty(),
        },
{
    let ghost te = entries@;
    let mut t: usize = 0;
    assert(te.skip(0) =~= te);
    while t < entries.len()
        invariant
            t <= entries.len(),
            te == entries@,
            lookup_tags(te, key@) == lookup_tags(te.skip(t as int), key@),
        decreases entries.len() - t,
    {
        proof {
            assert(te.skip(t as int)[0] == te[t as int]);
            assert(te.skip(t as int).drop_first() =~= te.skip(t + 1));
        }
        if str_eq(entries[t].0.as_str(), key) {
            return copy_strings(&entries[t].1);
        }
        t = t + 1;
    }
    let r: Vec<String> = Vec::new();
    assert(str_views(r@) =~= Seq::<Seq<char>>::empty());
    r
}

/// Resolve a single site by name without scanning every parked directory:
/// a link of that name wins, else the first parked root holding a directory
/// of that name. `dirs` lists the directories known to exist. `None` when
/// there is no such site, or the name is empty or starts with `.`.
pub fn resolve_one(config: &LocalConfig, name: &str, dirs: &[String]) -> (r: Option<ResolvedSite>)
    requires
        crate::config::maps_ordered(*config),
    ensures
        r is Some <==> resolves(*config, to_lowercase(name@), str_views(dirs@)),
        r matches Some(s) ==> site_matches(s, *config, to_lowercase(name@), str_views(dirs@)),
{
    let name_l = to_lower(name);
    let nc = to_chars(name_l.as_str());
    let ghost key = name_l@;
    let tags = tags_for(&config.tags, name_l.as_str());
    if nc.len() == 0 || nc[0] == '.' {
        proof {
            if nc@.len() > 0 {
                assert(nc@.subrange(0, 1) =~= seq!['.']);
            }
        }
        return None;
    }
    assert(!has_prefix(key, seq!['.'])) by {
        if has_prefix(key, seq!['.']) {
            assert(key.subrange(0, 1)[0] == key[0]);
        }
    }
    let tld = config.primary_tld();
    // A link of that name.
    let ghost le = config.links@;
    let mut i: usize = 0;
    while i < config.links.len()
        invariant
            i <= config.links.len(),
            le == config.links@,
            key == name_l@,
            key == to_lowercase(name@),
            key.len() > 0,
            !has_prefix(key, seq!['.']),
            str_views(tags@) == match lookup_tags(config.tags@, key) {
                Some(x) => x,
                None => Seq::<Seq<char>>::empty(),
            },
            tld@ == config_primary_tld(str_views(config.tlds@)),
            link_index(le.take(i as int), key) is None,
        decreases config.links.len() - i,
    {
        assert(le.take(i + 1).drop_last() =~= le.take(i as int));
        if str_eq(config.links[i].0.as_str(), name_l.as_str()) {
            proof {
                lemma_link_index_prefix(le, key, i as int + 1);
            }
            let link = &config.links[i].1;
            let preload = match &link.preload {
                Some(p) => Some(join(link.path.as_str(), p.as_str())),
                None => None,
            };
            return Some(ResolvedSite {
                name: name_l,
                path: copy_string(&link.path),
                docroot: docroot_for(link.path.as_str(), dirs),
                php: match &link.php {
                    Some(p) => Some(copy_string(p)),
                    None => copy_opt_string(&config.default_php),
                },
                secure: link.secure,
                source: SiteSource::Linked,
                tld,
                runtime: copy_opt_string(&link.runtime),
                watch: match link.watch {
                    Some(w) => w,
                    None => true,
                },
                xdebug: mode_of(&link.xdebug, &config.default_xdebug),
                profile: link.profile,
                preload,
                dev: copy_opt_string(&link.dev),
                tags,
            });
        }
        i = i + 1;
    }
    assert(le.take(i as int) =~= le);
    // The first parked root holding a directory of that name.
    let ghost pv = str_views(config.parked@);
    let mut k: usize = 0;
    while k < config.parked.len()
        invariant
            k <= config.parked.len(),
            pv == str_views(config.parked@),
            key == name_l@,
            key == to_lowercase(name@),
            key.len() > 0,
            !has_prefix(key, seq!['.']),
            str_views(tags@) == match lookup_tags(config.tags@, key) {
                Some(x) => x,
                None => Seq::<Seq<char>>::empty(),
            },
            tld@ == config_primary_tld(str_views(config.tlds@)),
            link_index(config.links@, key) is None,
            parked_root(pv, key, str_views(dirs@), 0) == parked_root(pv, key, str_views(dirs@), k as int),
        decreases config.parked.len() - k,
    {
        let path = join(config.parked[k].as_str(), name_l.as_str());
        if has_file(dirs, path.as_str()) {
            let docroot = docroot_for(path.as_str(), dirs);
            return Some(ResolvedSite {
                name: name_l,
                path,
                docroot,
                php: copy_opt_string(&config.default_php),
                secure: false,
                source: SiteSource::Parked,
                tld,
                runtime: None,
                watch: true,
                xdebug: mode_of(&None, &config.default_xdebug),
                profile: false,
                preload: None,
                dev: None,
                tags,
            });
        }
        k = k + 1;
    }
    None
}

/// A link index found in a prefix of the links stays the index for the whole
/// list.
proof fn lemma_link_index_prefix(links: Seq<(String, Link)>, key: Seq<char>, n: int)
    requires
        0 < n <= links.len(),
        links[n - 1].0@ == key,
        link_index(links.take(n - 1), key) is None,
    ensures
        link_index(links, key) == Some(n - 1),
    decreases links.len() - n,
{
    if n == links.len() {
        assert(links.take(n - 1) =~= links.drop_last());
    } else {
        assert(links.drop_last().take(n - 1) =~= links.take(n - 1));
        assert(links.drop_last()[n - 1] == links[n - 1]);
        lemma_link_index_prefix(links.drop_last(), key, n);
    }
}

// ------------------------------------------------------------ all sites

/// What a resolved site holds, as plain values.
pub struct SiteView {
    pub name: Seq<char>,
    pub path: Seq<char>,
    pub docroot: Seq<char>,
    pub php: Option<Seq<char>>,
    pub secure: bool,
    pub source: SiteSource,
    pub tld: Seq<char>,
    pub runtime: Option<Seq<char>>,
    pub watch: bool,
    pub xdebug: Seq<char>,
    pub profile: bool,
    pub preload: Option<Seq<char>>,
    pub dev: Option<Seq<char>>,
    pub tags: Seq<Seq<char>>,
}

/// A resolved site as plain values.
pub open spec fn site_view(s: ResolvedSite) -> SiteView {
    SiteView {
        name: s.name@,
        path: s.path@,
        docroot: s.docroot@,
        php: opt_view(s.php),
        secure: s.secure,
        source: s.source,
        tld: s.tld@,
        runtime: opt_view(s.runtime),
        watch: s.watch,
        xdebug: s.xdebug@,
        profile: s.profile,
        preload: opt_view(s.preload),
        dev: opt_view(s.dev),
        tags: str_views(s.tags@),
    }
}

/// Resolved sites as plain values.
pub open spec fn site_views(ss: Seq<ResolvedSite>) -> Seq<SiteView> {
    ss.map_values(|s: ResolvedSite| site_view(s))
}

/// The names of sites.
pub open spec fn view_names(vs: Seq<SiteView>) -> Seq<Seq<char>> {
    vs.map_values(|v: SiteView| v.name)
}

/// No two sites share a name.
pub open spec fn unique_names(vs: Seq<SiteView>) -> bool {
    forall|i: int, j: int| 0 <= i < j < vs.len() ==> (#[trigger] vs[i]).name != (#[trigger] vs[j]).name
}

/// The tags stored for a site name, or none.
pub open spec fn tags_or_none(c: LocalConfig, name: Seq<char>) -> Seq<Seq<char>> {
    match lookup_tags(c.tags@, name) {
        Some(t) => t,
        None => Seq::empty(),
    }
}

/// The site a link makes, under its (lowercased) name.
pub open spec fn linked_view(c: LocalConfig, name: Seq<char>, l: Link, dirs: Seq<Seq<char>>) -> SiteView {
    SiteView {
        name,
        path: l.path@,
        docroot: docroot_of(l.path@, dirs),
        php: if l.php is Some {
            opt_view(l.php)
        } else {
            opt_view(c.default_php)
        },
        secure: l.secure,
        source: SiteSource::Linked,
        tld: config_primary_tld(str_views(c.tlds@)),
        runtime: opt_view(l.runtime),
        watch: match l.watch {
            Some(w) => w,
            None => true,
        },
        xdebug: effective_mode(opt_view(l.xdebug), opt_view(c.default_xdebug)),
        profile: l.profile,
        preload: match l.preload {
            Some(p) => Some(path_join(l.path@, p@)),
            None => None,
        },
        dev: opt_view(l.dev),
        tags: tags_or_none(c, name),
    }
}

/// The site a directory under a parked folder makes.
pub open spec fn parked_view(c: LocalConfig, path: Seq<char>, name: Seq<char>, dirs: Seq<Seq<char>>) -> SiteView {
    SiteView {
        name,
        path,
        docroot: docroot_of(path, dirs),
        php: opt_view(c.default_php),
        secure: false,
        source: SiteSource::Parked,
        tld: config_primary_tld(str_views(c.tlds@)),
        runtime: None,
        watch: true,
        xdebug: effective_mode(None, opt_view(c.default_xdebug)),
        profile: false,
        preload: None,
        dev: None,
        tags: tags_or_none(c, name),
    }
}

/// The sites the links make, in order, each name kept once (the first link
/// with a name wins).
pub open spec fn link_sites(c: LocalConfig, links: Seq<(String, Link)>, dirs: Seq<Seq<char>>) -> Seq<SiteView>
    decreases links.len(),
{
    if links.len() == 0 {
        Seq::empty()
    } else {
        let prev = link_sites(c, links.drop_last(), dirs);
        let name = to_lowercase(links.last().0@);
        if view_names(prev).contains(name) {
            prev
        } else {
            prev.push(linked_view(c, name, links.last().1, dirs))
        }
    }
}

/// `prev` followed by the sites the parked entries make: each entry that is
/// a directory, whose lowercased name does not start with `.` and is not yet
/// taken.
pub open spec fn parked_sites(c: LocalConfig, prev: Seq<SiteView>, entries: Seq<Seq<char>>, dirs: Seq<Seq<char>>) -> Seq<SiteView>
    decreases entries.len(),
{
    if entries.len() == 0 {
        prev
    } else {
        let before = parked_sites(c, prev, entries.drop_last(), dirs);
        let p = entries.last();
        match file_name(p) {
            Some(f) => {
                let name = to_lowercase(f);
                if dirs.contains(p) && !has_prefix(name, seq!['.']) && !view_names(before).contains(name) {
                    before.push(parked_view(c, p, name, dirs))
                } else {
                    before
                }
            },
            None => before,
        }
    }
}

/// Every site a configuration serves, before ordering: links first, then
/// the parked entries. `entries` lists what each parked folder holds, folder
/// by folder; `dirs` the directories that exist.
pub open spec fn site_candidates(c: LocalConfig, entries: Seq<Seq<char>>, dirs: Seq<Seq<char>>) -> Seq<SiteView> {
    parked_sites(c, link_sites(c, c.links@, dirs), entries, dirs)
}

proof fn lemma_push_unique(vs: Seq<SiteView>, v: SiteView)
    requires
        unique_names(vs),
        !view_names(vs).contains(v.name),
    ensures
        unique_names(vs.push(v)),
{
    let ws = vs.push(v);
    assert forall|i: int, j: int| 0 <= i < j < ws.len() implies (#[trigger] ws[i]).name != (#[trigger] ws[j]).name by {
        if j == vs.len() {
            assert(view_names(vs)[i] == vs[i].name);
        }
    }
}

proof fn lemma_link_sites_unique(c: LocalConfig, links: Seq<(String, Link)>, dirs: Seq<Seq<char>>)
    ensures
        unique_names(link_sites(c, links, dirs)),
    decreases links.len(),
{
    if links.len() > 0 {
        lemma_link_sites_unique(c, links.drop_last(), dirs);
        let prev = link_sites(c, links.drop_last(), dirs);
        let name = to_lowercase(links.last().0@);
        if !view_names(prev).contains(name) {
            lemma_push_unique(prev, linked_view(c, name, links.last().1, dirs));
        }
    }
}

proof fn lemma_parked_sites_unique(c: LocalConfig, prev: Seq<SiteView>, entries: Seq<Seq<char>>, dirs: Seq<Seq<char>>)
    requires
        unique_names(prev),
    ensures
        unique_names(parked_sites(c, prev, entries, dirs)),
    decreases entries.len(),
{
    if entries.len() > 0 {
        lemma_parked_sites_unique(c, prev, entries.drop_last(), dirs);
        let before = parked_sites(c, prev, entries.drop_last(), dirs);
        let p = entries.last();
        if let Some(f) = file_name(p) {
            let name = to_lowercase(f);
            if dirs.contains(p) && !has_prefix(name, seq!['.']) && !view_names(before).contains(name) {
                lemma_push_unique(before, parked_view(c, p, name, dirs));
            }
        }
    }
}

/// No two of a configuration's sites share a name.
pub proof fn lemma_site_names_unique(c: LocalConfig, entries: Seq<Seq<char>>, dirs: Seq<Seq<char>>)
    ensures
        unique_names(site_candidates(c, entries, dirs)),
{
    lemma_link_sites_unique(c, c.links@, dirs);
    lemma_parked_sites_unique(c, link_sites(c, c.links@, dirs), entries, dirs);
}

fn linked_site(config: &LocalConfig, name: String, link: &Link, dirs: &[String]) -> (r: ResolvedSite)
    ensures
        site_view(r) == linked_view(*config, name@, *link, str_views(dirs@)),
{
    let tags = tags_for(&config.tags, name.as_str());
    let preload = match &link.preload {
        Some(p) => Some(join(link.path.as_str(), p.as_str())),
        None => None,
    };
    let r = ResolvedSite {
        name,
        path: copy_string(&link.path),
        docroot: docroot_for(link.path.as_str(), dirs),
        php: match &link.php {
            Some(p) => Some(copy_string(p)),
            None => copy_opt_string(&config.default_php),
        },
        secure: link.secure,
        source: SiteSource::Linked,
        tld: config.primary_tld(),
        runtime: copy_opt_string(&link.runtime),
        watch: match link.watch {
            Some(w) => w,
            None => true,
        },
        xdebug: mode_of(&link.xdebug, &config.default_xdebug),
        profile: link.profile,
        preload,
        dev: copy_opt_string(&link.dev),
        tags,
    };
    assert(site_view(r) =~= linked_view(*config, r.name@, *link, str_views(dirs@)));
    r
}

fn parked_site(config: &LocalConfig, path: &str, name: String, dirs: &[String]) -> (r: ResolvedSite)
    ensures
        site_view(r) == parked_view(*config, path@, name@, str_views(dirs@)),
{
    let tags = tags_for(&config.tags, name.as_str());
    let r = ResolvedSite {
        name,
        path: String::from_str(path),
        docroot: docroot_for(path, dirs),
        php: copy_opt_string(&config.default_php),
        secure: false,
        source: SiteSource::Parked,
        tld: config.primary_tld(),
        runtime: None,
        watch: true,
        xdebug: mode_of(&None, &config.default_xdebug),
        profile: false,
        preload: None,
        dev: None,
        tags,
    };
    assert(site_view(r) =~= parked_view(*config, path@, r.name@, str_views(dirs@)));
    r
}

fn name_taken(sites: &Vec<ResolvedSite>, name: &str) -> (r: bool)
    ensures
        r == view_names(site_views(sites@)).contains(name@),
{
    let ghost ns = view_names(site_views(sites@));
    let mut i: usize = 0;
    while i < sites.len()
        invariant
            i <= sites.len(),
            ns == view_names(site_views(sites@)),
            forall|k: int| 0 <= k < i ==> ns[k] != name@,
        decreases sites.len() - i,
    {
        if str_eq(sites[i].name.as_str(), name) {
            assert(ns[i as int] == name@);
            return true;
        }
        i = i + 1;
    }
    proof {
        if ns.contains(name@) {
            let k = choose|k: int| 0 <= k < ns.len() && ns[k] == name@;
            assert(ns[k] != name@);
        }
    }
    false
}

/// Insert `s` into `out`, kept in increasing name order.
fn insert_by_name(out: &mut Vec<ResolvedSite>, s: ResolvedSite)
    requires
        sorted_unique(view_names(site_views(old(out)@))),
        !view_names(site_views(old(out)@)).contains(s.name@),
    ensures
        sorted_unique(view_names(site_views(final(out)@))),
        final(out)@.len() == old(out)@.len() + 1,
        forall|x: SiteView|
            #[trigger] site_views(final(out)@).contains(x) <==> (site_views(old(out)@).contains(x) || x == site_view(s)),
{
    let ghost m0 = site_views(out@);
    let ghost n0 = view_names(m0);
    let sn = to_chars(s.name.as_str());
    let mut p: usize = 0;
    while p < out.len() && crate::text::lex_less(to_chars(out[p].name.as_str()).as_slice(), sn.as_slice())
        invariant
            p <= out.len(),
            site_views(out@) == m0,
            n0 == view_names(m0),
            sn@ == s.name@,
            forall|k: int| 0 <= k < p ==> crate::text::lex_lt(#[trigger] n0[k], sn@),
        decreases out.len() - p,
    {
        assert(n0[p as int] == out@[p as int].name@);
        p = p + 1;
    }
    proof {
        if p < out.len() {
            assert(n0[p as int] == out@[p as int].name@);
            assert(n0[p as int] != sn@) by {
                if n0[p as int] == sn@ {
                    assert(n0.contains(s.name@));
                }
            }
            crate::text::lemma_lex_total(n0[p as int], sn@);
            assert forall|k: int| p <= k < n0.len() implies crate::text::lex_lt(sn@, #[trigger] n0[k]) by {
                if k > p {
                    crate::text::lemma_lex_trans(sn@, n0[p as int], n0[k]);
                }
            }
        }
    }
    let ghost sv = site_view(s);
    out.insert(p, s);
    proof {
        let m1 = site_views(out@);
        assert(m1 =~= m0.insert(p as int, sv));
        let n1 = view_names(m1);
        assert(n1 =~= n0.insert(p as int, sn@));
        assert forall|i: int, j: int| 0 <= i < j < n1.len() implies crate::text::lex_lt(#[trigger] n1[i], #[trigger] n1[j]) by {
            if j < p {
            } else if i < p && j == p {
            } else if i < p {
                crate::text::lemma_lex_trans(n0[i], sn@, n0[j - 1]);
            } else if i == p {
            } else {
            }
        }
        assert forall|x: SiteView| #[trigger] m1.contains(x) <==> (m0.contains(x) || x == sv) by {
            if m1.contains(x) {
                let k = choose|k: int| 0 <= k < m1.len() && m1[k] == x;
                if k < p {
                    assert(m0[k] == x);
                } else if k > p {
                    assert(m0[k - 1] == x);
                }
            }
            if m0.contains(x) {
                let k = choose|k: int| 0 <= k < m0.len() && m0[k] == x;
                if k < p {
                    assert(m1[k] == x);
                } else {
                    assert(m1[k + 1] == x);
                }
            }
            if x == sv {
                assert(m1[p as int] == x);
            }
        }
    }
}

/// Arrange sites with distinct names in increasing name order.
fn sort_by_name(v: Vec<ResolvedSite>) -> (r: Vec<ResolvedSite>)
    requires
        unique_names(site_views(v@)),
    ensures
        sorted_unique(view_names(site_views(r@))),
        r@.len() == v@.len(),
        forall|x: SiteView| #[trigger] site_views(r@).contains(x) <==> site_views(v@).contains(x),
{
    let ghost orig = site_views(v@);
    let mut v = v;
    let mut out: Vec<ResolvedSite> = Vec::new();
    while v.len() > 0
        invariant
            v@.len() <= orig.len(),
            site_views(v@) == orig.take(v@.len() as int),
            unique_names(orig),
            sorted_unique(view_names(site_views(out@))),
            out@.len() + v@.len() == orig.len(),
            forall|x: SiteView| #[trigger] site_views(out@).contains(x) <==> orig.skip(v@.len() as int).contains(x),
        decreases v@.len(),
    {
        let ghost j = v@.len() - 1;
        let ghost vold = v@;
        let s = v.pop().unwrap();
        proof {
            assert(s == vold[j]);
            assert(site_views(vold)[j] == orig.take(j + 1)[j]);
            assert(site_views(v@) =~= orig.take(j));
            assert(site_view(s) == orig[j]);
            assert(!view_names(site_views(out@)).contains(s.name@)) by {
                if view_names(site_views(out@)).contains(s.name@) {
                    let k = choose|k: int| 0 <= k < view_names(site_views(out@)).len() && view_names(site_views(out@))[k] == s.name@;
                    let x = site_views(out@)[k];
                    assert(site_views(out@).contains(x));
                    let m = choose|m: int| 0 <= m < orig.skip(j + 1).len() && #[trigger] orig.skip(j + 1)[m] == x;
                    assert(orig[j + 1 + m] == x);
                }
            }
        }
        insert_by_name(&mut out, s);
        proof {
            assert forall|x: SiteView| orig.skip(j).contains(x) implies #[trigger] site_views(out@).contains(x) by {
                {
                    let m = choose|m: int| 0 <= m < orig.skip(j).len() && #[trigger] orig.skip(j)[m] == x;
                    if m > 0 {
                        assert(orig.skip(j + 1)[m - 1] == x);
                    }
                }
            }
            assert forall|x: SiteView| #[trigger] site_views(out@).contains(x) implies orig.skip(j).contains(x) by {
                {
                    if x == orig[j] {
                        assert(orig.skip(j)[0] == x);
                    } else {
                        let m = choose|m: int| 0 <= m < orig.skip(j + 1).len() && #[trigger] orig.skip(j + 1)[m] == x;
                        assert(orig.skip(j)[m + 1] == x);
                    }
                }
            }
        }
    }
    assert(orig.skip(0) =~= orig);
    out
}

/// Expand a configuration into the ordered list of sites to serve, one per
/// name: links first, so a link wins over a parked directory of the same
/// name, then each directory under a parked folder; ordered by name.
/// `entries` lists what each parked folder holds, folder by folder, and
/// `dirs` the directories that exist.
pub fn resolve(config: &LocalConfig, entries: &[String], dirs: &[String]) -> (r: Vec<ResolvedSite>)
    requires
        crate::config::maps_ordered(*config),
    ensures
        sorted_unique(view_names(site_views(r@))),
        r@.len() == site_candidates(*config, str_views(entries@), str_views(dirs@)).len(),
        forall|x: SiteView|
            #[trigger] site_views(r@).contains(x) <==> site_candidates(*config, str_views(entries@), str_views(dirs@)).contains(x),
{
    let ghost c = *config;
    let ghost dv = str_views(dirs@);
    let ghost ev = str_views(entries@);
    let ghost lv = config.links@;
    let mut sites: Vec<ResolvedSite> = Vec::new();
    let mut i: usize = 0;
    assert(lv.take(0) =~= Seq::<(String, Link)>::empty());
    assert(site_views(sites@) =~= Seq::<SiteView>::empty());
    while i < config.links.len()
        invariant
            i <= config.links.len(),
            c == *config,
            lv == config.links@,
            dv == str_views(dirs@),
            site_views(sites@) == link_sites(c, lv.take(i as int), dv),
        decreases config.links.len() - i,
    {
        assert(lv.take(i + 1).drop_last() =~= lv.take(i as int));
        assert(lv.take(i + 1).last() == lv[i as int]);
        let name = to_lower(config.links[i].0.as_str());
        if !name_taken(&sites, name.as_str()) {
            let ghost before = site_views(sites@);
            let s = linked_site(config, name, &config.links[i].1, dirs);
            sites.push(s);
            assert(site_views(sites@) =~= before.push(site_view(s)));
        }
        i = i + 1;
    }
    assert(lv.take(i as int) =~= lv);
    let ghost base = site_views(sites@);
    let mut k: usize = 0;
    assert(ev.take(0) =~= Seq::<Seq<char>>::empty());
    while k < entries.len()
        invariant
            k <= entries.len(),
            c == *config,
            dv == str_views(dirs@),
            ev == str_views(entries@),
            base == link_sites(c, c.links@, dv),
            site_views(sites@) == parked_sites(c, base, ev.take(k as int), dv),
        decreases entries.len() - k,
    {
        assert(ev.take(k + 1).drop_last() =~= ev.take(k as int));
        assert(ev.take(k + 1).last() == entries@[k as int]@);
        let p = entries[k].as_str();
        if has_file(dirs, p) {
            match name_for(p) {
                Some(n) => {
                    let nc = to_chars(n.as_str());
                    let dotted = nc.len() > 0 && nc[0] == '.';
                    proof {
                        if nc@.len() > 0 {
                            assert(nc@.subrange(0, 1) =~= seq![nc@[0]]);
                        }
                        if has_prefix(n@, seq!['.']) {
                            assert(n@.subrange(0, 1)[0] == n@[0]);
                        }
                    }
                    if !dotted && !name_taken(&sites, n.as_str()) {
                        let ghost before = site_views(sites@);
                        let s = parked_site(config, p, n, dirs);
                        sites.push(s);
                        assert(site_views(sites@) =~= before.push(site_view(s)));
                    }
                },
                None => {},
            }
        }
        k = k + 1;
    }
    assert(ev.take(k as int) =~= ev);
    proof {
        lemma_site_names_unique(c, ev, dv);
    }
    sort_by_name(sites)
}

// ------------------------------------------------------- one site and all

/// Every link key is its own lowercase form.
pub open spec fn link_keys_lowercase(links: Seq<(String, Link)>) -> bool {
    forall|i: int| 0 <= i < links.len() ==> to_lowercase(#[trigger] links[i].0@) == links[i].0@
}

proof fn lemma_link_index_none(links: Seq<(String, Link)>, name: Seq<char>)
    ensures
        link_index(links, name) is None <==> forall|i: int| 0 <= i < links.len() ==> (#[trigger] links[i]).0@ != name,
        link_index(links, name) matches Some(k) ==> 0 <= k < links.len() && links[k].0@ == name,
    decreases links.len(),
{
    if links.len() > 0 {
        lemma_link_index_none(links.drop_last(), name);
        assert forall|i: int| 0 <= i < links.len() - 1 implies links.drop_last()[i] == #[trigger] links[i] by {}
    }
}

proof fn lemma_link_site_names(c: LocalConfig, links: Seq<(String, Link)>, dirs: Seq<Seq<char>>, n: Seq<char>)
    requires
        view_names(link_sites(c, links, dirs)).contains(n),
    ensures
        exists|i: int| 0 <= i < links.len() && to_lowercase(#[trigger] links[i].0@) == n,
    decreases links.len(),
{
    let prev = link_sites(c, links.drop_last(), dirs);
    if view_names(prev).contains(n) {
        lemma_link_site_names(c, links.drop_last(), dirs, n);
        let i = choose|i: int| 0 <= i < links.drop_last().len() && to_lowercase(#[trigger] links.drop_last()[i].0@) == n;
        assert(links.drop_last()[i] == links[i]);
    } else {
        let vs = link_sites(c, links, dirs);
        let k = choose|k: int| 0 <= k < view_names(vs).len() && view_names(vs)[k] == n;
        assert(vs == prev.push(linked_view(c, to_lowercase(links.last().0@), links.last().1, dirs)));
        if k < prev.len() {
            assert(view_names(prev)[k] == n);
        }
        assert(links[links.len() - 1] == links.last());
    }
}

proof fn lemma_link_sites_have(c: LocalConfig, links: Seq<(String, Link)>, dirs: Seq<Seq<char>>, name: Seq<char>)
    requires
        link_keys_lowercase(links),
        link_index(links, name) is Some,
    ensures
        link_sites(c, links, dirs).contains(linked_view(c, name, links[link_index(links, name)->0].1, dirs)),
    decreases links.len(),
{
    let dl = links.drop_last();
    assert forall|i: int| 0 <= i < dl.len() implies to_lowercase(#[trigger] dl[i].0@) == dl[i].0@ by {
        assert(dl[i] == links[i]);
    }
    let prev = link_sites(c, dl, dirs);
    let k = link_index(links, name)->0;
    if link_index(dl, name) is Some {
        lemma_link_sites_have(c, dl, dirs, name);
        assert(link_index(links, name) == link_index(dl, name));
        lemma_link_index_none(dl, name);
        assert(dl[k] == links[k]);
        let v = linked_view(c, name, links[k].1, dirs);
        let j = choose|j: int| 0 <= j < prev.len() && prev[j] == v;
        let vs = link_sites(c, links, dirs);
        assert(vs[j] == v);
    } else {
        lemma_link_index_none(dl, name);
        lemma_link_index_none(links, name);
        assert(k == links.len() - 1);
        assert(links.last().0@ == name);
        assert(to_lowercase(links.last().0@) == name) by {
            assert(links[links.len() - 1] == links.last());
        }
        if view_names(prev).contains(name) {
            lemma_link_site_names(c, dl, dirs, name);
            let i = choose|i: int| 0 <= i < dl.len() && to_lowercase(#[trigger] dl[i].0@) == name;
            assert(dl[i].0@ != name);
        }
        let vs = link_sites(c, links, dirs);
        assert(vs == prev.push(linked_view(c, name, links.last().1, dirs)));
        assert(vs[prev.len() as int] == linked_view(c, name, links.last().1, dirs));
    }
}

proof fn lemma_parked_sites_keep(c: LocalConfig, prev: Seq<SiteView>, entries: Seq<Seq<char>>, dirs: Seq<Seq<char>>, v: SiteView)
    requires
        prev.contains(v),
    ensures
        parked_sites(c, prev, entries, dirs).contains(v),
    decreases entries.len(),
{
    if entries.len() > 0 {
        lemma_parked_sites_keep(c, prev, entries.drop_last(), dirs, v);
        let before = parked_sites(c, prev, entries.drop_last(), dirs);
        let j = choose|j: int| 0 <= j < before.len() && before[j] == v;
        let after = parked_sites(c, prev, entries, dirs);
        assert(after == before || after == before.push(after.last()));
        assert(after[j] == v);
    }
}

/// A link's site is the same whether one site is resolved by name or all of
/// them are listed: when a name is a link's key (keys being their own
/// lowercase form), the site `resolve_one` gives for it is among those
/// `resolve` lists, whatever the parked folders hold.
pub proof fn lemma_linked_site_listed(
    c: LocalConfig,
    name: Seq<char>,
    entries: Seq<Seq<char>>,
    dirs: Seq<Seq<char>>,
    s: ResolvedSite,
)
    requires
        link_keys_lowercase(c.links@),
        link_index(c.links@, name) is Some,
        site_matches(s, c, name, dirs),
    ensures
        site_candidates(c, entries, dirs).contains(site_view(s)),
{
    let k = link_index(c.links@, name)->0;
    let l = c.links@[k].1;
    lemma_link_sites_have(c, c.links@, dirs, name);
    assert(site_view(s) == linked_view(c, name, l, dirs));
    lemma_parked_sites_keep(c, link_sites(c, c.links@, dirs), entries, dirs, site_view(s));
}

/// A name a folder listing may hold for a site: not empty, no `/`, not `.`
/// or `..`, and its own lowercase form.
pub open spec fn child_name_ok(x: Seq<char>) -> bool {
    &&& x.len() > 0
    &&& forall|k: int| 0 <= k < x.len() ==> #[trigger] x[k] != '/'
    &&& x != "."@
    &&& x != ".."@
    &&& to_lowercase(x) == x
}

proof fn lemma_split_no_sep(x: Seq<char>, c: char)
    requires
        forall|k: int| 0 <= k < x.len() ==> #[trigger] x[k] != c,
    ensures
        split_on(x, c) == seq![x],
    decreases x.len(),
{
    if x.len() > 0 {
        assert forall|k: int| 0 <= k < x.drop_first().len() implies #[trigger] x.drop_first()[k] != c by {
            assert(x.drop_first()[k] == x[k + 1]);
        }
        lemma_split_no_sep(x.drop_first(), c);
        assert(seq![x[0]] + x.drop_first() =~= x);
    } else {
        assert(x =~= Seq::<char>::empty());
    }
}

proof fn lemma_split_tail(pre: Seq<char>, x: Seq<char>, c: char)
    requires
        forall|k: int| 0 <= k < x.len() ==> #[trigger] x[k] != c,
        pre.len() > 0 ==> pre.last() == c,
    ensures
        split_on(pre + x, c).last() == x,
        pre.len() > 0 ==> split_on(pre + x, c).len() >= 2,
    decreases pre.len(),
{
    if pre.len() == 0 {
        assert(pre + x =~= x);
        lemma_split_no_sep(x, c);
    } else {
        let s = pre + x;
        assert(s.drop_first() =~= pre.drop_first() + x);
        assert(s[0] == pre[0]);
        if pre.len() == 1 {
            assert(pre[0] == c);
            assert(pre.drop_first() + x =~= x);
            lemma_split_no_sep(x, c);
        } else {
            assert(pre.drop_first().last() == pre.last());
            lemma_split_tail(pre.drop_first(), x, c);
            crate::text::lemma_split_on_nonempty(s.drop_first(), c);
        }
    }
}

/// A child's path under a folder has the child as its file name.
proof fn lemma_file_name_join(root: Seq<char>, x: Seq<char>)
    requires
        child_name_ok(x),
    ensures
        file_name(path_join(root, x)) == Some(x),
{
    reveal_strlit(".");
    reveal_strlit("..");
    if has_prefix(x, seq!['/']) {
        assert(x.subrange(0, 1)[0] == x[0]);
    }
    let p = path_join(root, x);
    let pre = if root.len() == 0 {
        Seq::<char>::empty()
    } else if root.last() == '/' {
        root
    } else {
        root + seq!['/']
    };
    assert(p =~= pre + x);
    lemma_split_tail(pre, x, '/');
    let ps = split_on(p, '/');
    crate::text::lemma_split_on_nonempty(p, '/');
    assert(ps.last() == x);
    assert(x.len() > 0 && x != "."@);
    assert(last_component(ps) == Some(x));
}

proof fn lemma_parked_root_first(parked: Seq<Seq<char>>, name: Seq<char>, dirs: Seq<Seq<char>>, st: int)
    requires
        0 <= st,
    ensures
        parked_root(parked, name, dirs, st) matches Some(i) ==> st <= i < parked.len() && dirs.contains(
            path_join(parked[i], name),
        ) && forall|j: int| st <= j < i ==> !dirs.contains(#[trigger] path_join(parked[j], name)),
    decreases parked.len() - st,
{
    if st < parked.len() && !dirs.contains(path_join(parked[st], name)) {
        lemma_parked_root_first(parked, name, dirs, st + 1);
    }
}

/// The listing model: entry `k` is child `kids[k]` of parked folder
/// `roots[k]`, the folders' listings come in folder order, and every
/// directory named by a valid child under a parked folder is listed.
pub open spec fn entries_list(
    parked: Seq<Seq<char>>,
    entries: Seq<Seq<char>>,
    roots: Seq<int>,
    kids: Seq<Seq<char>>,
    dirs: Seq<Seq<char>>,
) -> bool {
    &&& roots.len() == entries.len() && kids.len() == entries.len()
    &&& forall|k: int| 0 <= k < entries.len() ==> 0 <= #[trigger] roots[k] < parked.len()
    &&& forall|k: int| 0 <= k < entries.len() ==> #[trigger] entries[k] == path_join(parked[roots[k]], kids[k])
    &&& forall|k: int| 0 <= k < entries.len() ==> child_name_ok(#[trigger] kids[k])
    &&& forall|a: int, b: int| 0 <= a < b < entries.len() ==> #[trigger] roots[a] <= #[trigger] roots[b]
    &&& forall|j: int, x: Seq<char>|
        0 <= j < parked.len() && child_name_ok(x) && #[trigger] dirs.contains(path_join(parked[j], x)) ==> exists|k: int|
            0 <= k < entries.len() && roots[k] == j && #[trigger] kids[k] == x
}

proof fn lemma_parked_walk(
    c: LocalConfig,
    prev: Seq<SiteView>,
    entries: Seq<Seq<char>>,
    roots: Seq<int>,
    kids: Seq<Seq<char>>,
    dirs: Seq<Seq<char>>,
    name: Seq<char>,
    i: int,
    k0: int,
    m: int,
)
    requires
        entries_list(str_views(c.parked@), entries, roots, kids, dirs),
        0 <= k0 < entries.len(),
        roots[k0] == i,
        kids[k0] == name,
        0 <= m <= entries.len(),
        !view_names(prev).contains(name),
        !has_prefix(name, seq!['.']),
        dirs.contains(path_join(str_views(c.parked@)[i], name)),
        forall|j: int| 0 <= j < i ==> !dirs.contains(#[trigger] path_join(str_views(c.parked@)[j], name)),
    ensures
        ({
            let ps = parked_sites(c, prev, entries.take(m), dirs);
            let v = parked_view(c, path_join(str_views(c.parked@)[i], name), name, dirs);
            &&& view_names(ps).contains(name) ==> ps.contains(v)
            &&& m > k0 ==> view_names(ps).contains(name)
        }),
    decreases m,
{
    let pk = str_views(c.parked@);
    let bigp = path_join(pk[i], name);
    let v = parked_view(c, bigp, name, dirs);
    let ps = parked_sites(c, prev, entries.take(m), dirs);
    if m == 0 {
        assert(entries.take(0) =~= Seq::<Seq<char>>::empty());
    } else {
        lemma_parked_walk(c, prev, entries, roots, kids, dirs, name, i, k0, m - 1);
        let before = parked_sites(c, prev, entries.take(m - 1), dirs);
        assert(entries.take(m).drop_last() =~= entries.take(m - 1));
        let e = entries[m - 1];
        assert(entries.take(m).last() == e);
        lemma_file_name_join(pk[roots[m - 1]], kids[m - 1]);
        assert(file_name(e) == Some(kids[m - 1]));
        let x = kids[m - 1];
        assert(to_lowercase(x) == x);
        let added = dirs.contains(e) && !has_prefix(x, seq!['.']) && !view_names(before).contains(x);
        if added {
            assert(ps == before.push(parked_view(c, e, x, dirs)));
            if x == name {
                // The entry is the resolved folder's child.
                assert(m - 1 <= k0);
                if m - 1 < k0 {
                    assert(roots[m - 1] <= roots[k0]);
                }
                assert(roots[m - 1] <= i);
                if roots[m - 1] < i {
                    assert(!dirs.contains(path_join(pk[roots[m - 1]], name)));
                }
                assert(roots[m - 1] == i);
                assert(e == bigp);
                assert(ps.last() == v);
                assert(ps.contains(v)) by {
                    assert(ps[ps.len() - 1] == v);
                }
                assert(view_names(ps)[ps.len() - 1] == name);
                assert(view_names(ps).contains(name));
            } else {
                assert(m - 1 != k0);
                if m > k0 {
                    assert(view_names(before).contains(name));
                    let q = choose|q: int| 0 <= q < view_names(before).len() && view_names(before)[q] == name;
                    assert(view_names(ps)[q] == name);
                }
                assert forall|q: int| 0 <= q < view_names(ps).len() && view_names(ps)[q] == name implies ps.contains(v) by {
                    if q < before.len() {
                        assert(view_names(before)[q] == name);
                        let r = choose|r: int| 0 <= r < before.len() && before[r] == v;
                        assert(ps[r] == v);
                    }
                }
                if view_names(before).contains(name) {
                    let q = choose|q: int| 0 <= q < view_names(before).len() && view_names(before)[q] == name;
                    assert(view_names(ps)[q] == name);
                }
            }
        } else {
            assert(ps == before);
            if m - 1 == k0 {
                assert(e == bigp);
                assert(view_names(before).contains(name));
            }
        }
    }
}

/// A parked folder's site is the same whether one site is resolved by name
/// or all of them are listed: when a name is no link's key (keys being their
/// own lowercase form), is a valid child name, and the folders are listed in
/// order (see [`entries_list`]), the site `resolve_one` gives for it is
/// among those `resolve` lists: the first parked folder holding it wins in
/// both.
pub proof fn lemma_parked_site_listed(
    c: LocalConfig,
    name: Seq<char>,
    entries: Seq<Seq<char>>,
    roots: Seq<int>,
    kids: Seq<Seq<char>>,
    dirs: Seq<Seq<char>>,
    s: ResolvedSite,
)
    requires
        link_keys_lowercase(c.links@),
        link_index(c.links@, name) is None,
        child_name_ok(name),
        resolves(c, name, dirs),
        site_matches(s, c, name, dirs),
        entries_list(str_views(c.parked@), entries, roots, kids, dirs),
    ensures
        site_candidates(c, entries, dirs).contains(site_view(s)),
{
    let pk = str_views(c.parked@);
    lemma_parked_root_first(pk, name, dirs, 0);
    let i = parked_root(pk, name, dirs, 0)->0;
    let bigp = path_join(pk[i], name);
    assert(dirs.contains(bigp));
    let k0 = choose|k: int| 0 <= k < entries.len() && roots[k] == i && #[trigger] kids[k] == name;
    let prev = link_sites(c, c.links@, dirs);
    if view_names(prev).contains(name) {
        lemma_link_site_names(c, c.links@, dirs, name);
        let q = choose|q: int| 0 <= q < c.links@.len() && to_lowercase(#[trigger] c.links@[q].0@) == name;
        lemma_link_index_none(c.links@, name);
        assert(c.links@[q].0@ != name);
    }
    lemma_parked_walk(c, prev, entries, roots, kids, dirs, name, i, k0, entries.len() as int);
    assert(entries.take(entries.len() as int) =~= entries);
    assert(site_view(s) == parked_view(c, bigp, name, dirs));
}

/// Every link key is usable as a site name: not empty, not starting with
/// `.`, and its own lowercase form.
pub open spec fn link_keys_ok(links: Seq<(String, Link)>) -> bool {
    &&& link_keys_lowercase(links)
    &&& forall|i: int| 0 <= i < links.len() ==> (#[trigger] links[i]).0@.len() > 0 && !has_prefix(links[i].0@, seq!['.'])
}

proof fn lemma_parked_root_some(parked: Seq<Seq<char>>, name: Seq<char>, dirs: Seq<Seq<char>>, st: int, j: int)
    requires
        0 <= st <= j < parked.len(),
        dirs.contains(path_join(parked[j], name)),
    ensures
        parked_root(parked, name, dirs, st) is Some,
    decreases j - st,
{
    if !dirs.contains(path_join(parked[st], name)) {
        lemma_parked_root_some(parked, name, dirs, st + 1, j);
    }
}

proof fn lemma_parked_site_names(c: LocalConfig, prev: Seq<SiteView>, es: Seq<Seq<char>>, dirs: Seq<Seq<char>>, n: Seq<char>)
    requires
        view_names(parked_sites(c, prev, es, dirs)).contains(n),
    ensures
        view_names(prev).contains(n) || exists|k: int|
            0 <= k < es.len() && dirs.contains(#[trigger] es[k]) && file_name(es[k]) is Some && to_lowercase(
                file_name(es[k])->0,
            ) == n && !has_prefix(n, seq!['.']),
    decreases es.len(),
{
    if es.len() > 0 {
        let before = parked_sites(c, prev, es.drop_last(), dirs);
        let after = parked_sites(c, prev, es, dirs);
        if view_names(before).contains(n) {
            lemma_parked_site_names(c, prev, es.drop_last(), dirs, n);
            if !view_names(prev).contains(n) {
                let k = choose|k: int|
                    0 <= k < es.drop_last().len() && dirs.contains(#[trigger] es.drop_last()[k]) && file_name(es.drop_last()[k]) is Some
                        && to_lowercase(file_name(es.drop_last()[k])->0) == n && !has_prefix(n, seq!['.']);
                assert(es.drop_last()[k] == es[k]);
            }
        } else {
            let q = choose|q: int| 0 <= q < view_names(after).len() && view_names(after)[q] == n;
            if after == before {
                assert(view_names(before)[q] == n);
            } else {
                assert(q == before.len()) by {
                    if q < before.len() {
                        assert(view_names(before)[q] == n);
                    }
                }
                assert(es[es.len() - 1] == es.last());
            }
        }
    }
}

/// `resolve_one` agrees with `resolve`. With usable link keys, a valid
/// child name, and the parked folders listed in order (see
/// [`entries_list`]): a name resolves exactly when `resolve` lists a site of
/// that name, and the site `resolve_one` then gives is the one listed (a
/// link wins over a parked folder, and the first parked folder wins).
pub proof fn lemma_resolve_one_agrees(
    c: LocalConfig,
    name: Seq<char>,
    entries: Seq<Seq<char>>,
    roots: Seq<int>,
    kids: Seq<Seq<char>>,
    dirs: Seq<Seq<char>>,
)
    requires
        link_keys_ok(c.links@),
        child_name_ok(name),
        entries_list(str_views(c.parked@), entries, roots, kids, dirs),
    ensures
        resolves(c, name, dirs) <==> view_names(site_candidates(c, entries, dirs)).contains(name),
        forall|s: ResolvedSite|
            resolves(c, name, dirs) && #[trigger] site_matches(s, c, name, dirs) ==> site_candidates(c, entries, dirs).contains(
                site_view(s),
            ),
{
    let pk = str_views(c.parked@);
    assert forall|s: ResolvedSite|
        resolves(c, name, dirs) && #[trigger] site_matches(s, c, name, dirs) implies site_candidates(c, entries, dirs).contains(
        site_view(s),
    ) by {
        if link_index(c.links@, name) is Some {
            lemma_linked_site_listed(c, name, entries, dirs, s);
        } else {
            lemma_parked_site_listed(c, name, entries, roots, kids, dirs, s);
        }
    }
    let cands = site_candidates(c, entries, dirs);
    if view_names(cands).contains(name) {
        let prev = link_sites(c, c.links@, dirs);
        lemma_parked_site_names(c, prev, entries, dirs, name);
        if view_names(prev).contains(name) {
            lemma_link_site_names(c, c.links@, dirs, name);
            let q = choose|q: int| 0 <= q < c.links@.len() && to_lowercase(#[trigger] c.links@[q].0@) == name;
            lemma_link_index_none(c.links@, name);
            assert(c.links@[q].0@ == name);
        } else {
            let k = choose|k: int|
                0 <= k < entries.len() && dirs.contains(#[trigger] entries[k]) && file_name(entries[k]) is Some && to_lowercase(
                    file_name(entries[k])->0,
                ) == name && !has_prefix(name, seq!['.']);
            lemma_file_name_join(pk[roots[k]], kids[k]);
            assert(kids[k] == name);
            lemma_parked_root_some(pk, name, dirs, 0, roots[k]);
        }
    }
    if resolves(c, name, dirs) {
        if link_index(c.links@, name) is Some {
            lemma_link_index_none(c.links@, name);
            let k = link_index(c.links@, name)->0;
            lemma_link_sites_have(c, c.links@, dirs, name);
            let v = linked_view(c, name, c.links@[k].1, dirs);
            let prev = link_sites(c, c.links@, dirs);
            let j = choose|j: int| 0 <= j < prev.len() && prev[j] == v;
            assert(view_names(prev)[j] == name);
            lemma_parked_sites_keep(c, prev, entries, dirs, v);
            let q = choose|q: int| 0 <= q < cands.len() && cands[q] == v;
            assert(view_names(cands)[q] == name);
        } else {
            lemma_parked_root_first(pk, name, dirs, 0);
            let i = parked_root(pk, name, dirs, 0)->0;
            let k0 = choose|k: int| 0 <= k < entries.len() && roots[k] == i && #[trigger] kids[k] == name;
            let prev = link_sites(c, c.links@, dirs);
            lemma_link_index_none(c.links@, name);
            if view_names(prev).contains(name) {
                lemma_link_site_names(c, c.links@, dirs, name);
                let q = choose|q: int| 0 <= q < c.links@.len() && to_lowercase(#[trigger] c.links@[q].0@) == name;
                assert(c.links@[q].0@ != name);
            }
            lemma_parked_walk(c, prev, entries, roots, kids, dirs, name, i, k0, entries.len() as int);
            assert(entries.take(entries.len() as int) =~= entries);
        }
    }
}

// ------------------------------------------------------- xdebug of a site

/// A resolved site without an Xdebug mode of its own runs the config's
/// default mode, parsed, when that default parses; and a site whose own mode
/// parses runs exactly that mode, whatever the default.
pub proof fn lemma_site_xdebug_mode(c: LocalConfig, name: Seq<char>, dirs: Seq<Seq<char>>, s: ResolvedSite)
    requires
        site_matches(s, c, name, dirs),
    ensures
        ({
            let own = match link_index(c.links@, name) {
                Some(i) => opt_view(c.links@[i].1.xdebug),
                None => None,
            };
            &&& (own is None && c.default_xdebug is Some && crate::xdebug::parse_outcome(c.default_xdebug->0@) is Ok)
                ==> s.xdebug@ == crate::xdebug::parse_outcome(c.default_xdebug->0@)->Ok_0
            &&& (own is Some && crate::xdebug::parse_outcome(own->0) is Ok) ==> s.xdebug@
                == crate::xdebug::parse_outcome(own->0)->Ok_0
            &&& (own is None && c.default_xdebug is None) ==> s.xdebug@ == "off"@
        }),
{
}

proof fn lemma_parked_views_mode(c: LocalConfig, prev: Seq<SiteView>, es: Seq<Seq<char>>, dirs: Seq<Seq<char>>, m: Seq<char>)
    requires
        forall|k: int| 0 <= k < prev.len() && (#[trigger] prev[k]).source == SiteSource::Parked ==> prev[k].xdebug == m,
        m == effective_mode(None, opt_view(c.default_xdebug)),
    ensures
        forall|k: int|
            0 <= k < parked_sites(c, prev, es, dirs).len() && (#[trigger] parked_sites(c, prev, es, dirs)[k]).source
                == SiteSource::Parked ==> parked_sites(c, prev, es, dirs)[k].xdebug == m,
    decreases es.len(),
{
    if es.len() > 0 {
        lemma_parked_views_mode(c, prev, es.drop_last(), dirs, m);
    }
}

/// Every parked site `resolve` lists runs the config's default Xdebug mode,
/// parsed, when that default parses (parked sites have no mode of their
/// own), and `off` when there is no default.
pub proof fn lemma_listed_parked_mode(c: LocalConfig, entries: Seq<Seq<char>>, dirs: Seq<Seq<char>>)
    ensures
        forall|k: int|
            0 <= k < site_candidates(c, entries, dirs).len() && (#[trigger] site_candidates(c, entries, dirs)[k]).source
                == SiteSource::Parked ==> {
                let v = site_candidates(c, entries, dirs)[k].xdebug;
                &&& (c.default_xdebug is Some && crate::xdebug::parse_outcome(c.default_xdebug->0@) is Ok) ==> v
                    == crate::xdebug::parse_outcome(c.default_xdebug->0@)->Ok_0
                &&& c.default_xdebug is None ==> v == "off"@
            },
{
    let m = effective_mode(None, opt_view(c.default_xdebug));
    lemma_link_views_linked(c, c.links@, dirs);
    lemma_parked_views_mode(c, link_sites(c, c.links@, dirs), entries, dirs, m);
}

proof fn lemma_link_views_linked(c: LocalConfig, links: Seq<(String, Link)>, dirs: Seq<Seq<char>>)
    ensures
        forall|k: int| 0 <= k < link_sites(c, links, dirs).len() ==> (#[trigger] link_sites(c, links, dirs)[k]).source
            == SiteSource::Linked,
    decreases links.len(),
{
    if links.len() > 0 {
        lemma_link_views_linked(c, links.drop_last(), dirs);
    }
}

/// A composer.json that requires Drupal (`drupal/core` or
/// `drupal/core-recommended`) and none of the frameworks checked before it
/// (Laravel, Symfony, Tempest, Statamic, Craft) is labelled Drupal.
pub proof fn lemma_drupal_label(text: Seq<char>)
    requires
        composer_version(text, "drupal/core"@) is Some || composer_version(text, "drupal/core-recommended"@) is Some,
        composer_version(text, "laravel/framework"@) is None,
        composer_version(text, "symfony/framework-bundle"@) is None,
        composer_version(text, "symfony/symfony"@) is None,
        composer_version(text, "tempest/framework"@) is None,
        composer_version(text, "statamic/cms"@) is None,
        composer_version(text, "craftcms/cms"@) is None,
    ensures
        composer_framework(text) == "Drupal"@,
{
}

/// The plain `PHP (Composer)` label is given only when composer.json
/// requires none of the frameworks that are recognised.
pub proof fn lemma_plain_composer_label(text: Seq<char>)
    ensures
        composer_framework(text) == "PHP (Composer)"@ ==> {
            &&& composer_version(text, "laravel/framework"@) is None
            &&& composer_version(text, "symfony/framework-bundle"@) is None
            &&& composer_version(text, "symfony/symfony"@) is None
            &&& composer_version(text, "tempest/framework"@) is None
            &&& composer_version(text, "statamic/cms"@) is None
            &&& composer_version(text, "craftcms/cms"@) is None
            &&& composer_version(text, "drupal/core"@) is None
            &&& composer_version(text, "drupal/core-recommended"@) is None
            &&& composer_version(text, "slim/slim"@) is None
            &&& composer_version(text, "cakephp/cakephp"@) is None
        },
{
    reveal_strlit("PHP (Composer)");
    reveal_strlit("Statamic");
    reveal_strlit("Craft");
    reveal_strlit("Drupal");
    reveal_strlit("Slim");
    reveal_strlit("CakePHP");
    reveal_strlit("Laravel");
    reveal_strlit("Symfony");
    reveal_strlit("Tempest");
    let f = composer_framework(text);
    assert("PHP (Composer)"@[0] == 'P');
    if composer_version(text, "laravel/framework"@) is Some {
        assert(f[0] == "Laravel"@[0]);
    } else if composer_version(text, "symfony/framework-bundle"@) is Some || composer_version(text, "symfony/symfony"@) is Some {
        assert(f[0] == "Symfony"@[0]);
    } else if composer_version(text, "tempest/framework"@) is Some {
        assert(f[0] == "Tempest"@[0]);
    } else if composer_version(text, "statamic/cms"@) is Some {
        assert(f[0] == 'S');
    } else if composer_version(text, "craftcms/cms"@) is Some {
        assert(f[0] == 'C');
    } else if composer_version(text, "drupal/core"@) is Some || composer_version(text, "drupal/core-recommended"@) is Some {
        assert(f[0] == 'D');
    } else if composer_version(text, "slim/slim"@) is Some {
        assert(f[0] == 'S');
    } else if composer_version(text, "cakephp/cakephp"@) is Some {
        assert(f[0] == 'C');
    }
}

/// A resolved site's PHP version: its link's own pin when it has one, else
/// the config's default; a parked site always takes the default. Its
/// security and source follow its link, and a parked site is plain HTTP.
pub proof fn lemma_site_php_and_source(c: LocalConfig, name: Seq<char>, dirs: Seq<Seq<char>>, s: ResolvedSite)
    requires
        site_matches(s, c, name, dirs),
    ensures
        link_index(c.links@, name) matches Some(i) ==> {
            &&& (c.links@[i].1.php is Some ==> opt_view(s.php) == opt_view(c.links@[i].1.php))
            &&& (c.links@[i].1.php is None ==> opt_view(s.php) == opt_view(c.default_php))
            &&& s.secure == c.links@[i].1.secure
            &&& s.source == SiteSource::Linked
            &&& s.path@ == c.links@[i].1.path@
        },
        link_index(c.links@, name) is None ==> {
            &&& opt_view(s.php) == opt_view(c.default_php)
            &&& !s.secure
            &&& s.source == SiteSource::Parked
        },
        s.name@ == name,
{
}

/// The framework label follows the first recognised package, in order:
/// Laravel, Symfony, Tempest (each with its constraint), then Statamic,
/// Craft, Drupal, Slim and CakePHP.
pub proof fn lemma_composer_label_order(text: Seq<char>)
    ensures
        composer_version(text, "laravel/framework"@) matches Some(v) ==> composer_framework(text) == "Laravel ("@ + v + ")"@,
        composer_version(text, "laravel/framework"@) is None ==> (composer_version(text, "symfony/framework-bundle"@) matches Some(v)
            ==> composer_framework(text) == "Symfony ("@ + v + ")"@),
        composer_version(text, "laravel/framework"@) is None && composer_version(text, "symfony/framework-bundle"@) is None
            ==> (composer_version(text, "symfony/symfony"@) matches Some(v) ==> composer_framework(text) == "Symfony ("@ + v
            + ")"@),
        composer_version(text, "laravel/framework"@) is None && composer_version(text, "symfony/framework-bundle"@) is None
            && composer_version(text, "symfony/symfony"@) is None ==> (composer_version(text, "tempest/framework"@) matches Some(
            v,
        ) ==> composer_framework(text) == "Tempest ("@ + v + ")"@),
        composer_version(text, "laravel/framework"@) is None && composer_version(text, "symfony/framework-bundle"@) is None
            && composer_version(text, "symfony/symfony"@) is None && composer_version(text, "tempest/framework"@) is None
            && composer_version(text, "statamic/cms"@) is Some ==> composer_framework(text) == "Statamic"@,
        composer_version(text, "laravel/framework"@) is None && composer_version(text, "symfony/framework-bundle"@) is None
            && composer_version(text, "symfony/symfony"@) is None && composer_version(text, "tempest/framework"@) is None
            && composer_version(text, "statamic/cms"@) is None && composer_version(text, "craftcms/cms"@) is Some
            ==> composer_framework(text) == "Craft"@,
{
    reveal_strlit("Laravel");
    reveal_strlit("Symfony");
    reveal_strlit("Tempest");
    reveal_strlit(" (");
    reveal_strlit("Laravel (");
    reveal_strlit("Symfony (");
    reveal_strlit("Tempest (");
    assert("Laravel"@ + " ("@ =~= "Laravel ("@);
    assert("Symfony"@ + " ("@ =~= "Symfony ("@);
    assert("Tempest"@ + " ("@ =~= "Tempest ("@);
}
} // verus!
