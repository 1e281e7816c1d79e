//! Maven coordinates and the repository layout they address.
use vstd::prelude::*;

use crate::error::LauncherError;
use crate::platform::{path_join, path_join_result};
use crate::text::{
    chars_of, copy_range, lemma_last_index_after, lemma_last_index_of_bounds,
    lemma_split_concat, lemma_split_no_sep, rfind_char, last_index_of, spec_replace_all,
    split_chars, split_spec, str_eq, str_replace, string_from_chars, trim_end_char,
    trim_end_char_spec, Sep,
};

verus! {

/// A parsed Maven coordinate.
///
/// Accepted forms:
///   `groupId:artifactId:version`
///   `groupId:artifactId:version:classifier`
///   `groupId:artifactId:version:classifier@packaging`
///   `groupId:artifactId:version@packaging`
#[derive(Debug, Clone, PartialEq, Eq, Hash)]
pub struct MavenArtifact {
    pub group_id: String,
    pub artifact_id: String,
    pub version: String,
    pub classifier: Option<String>,
    /// File extension / packaging type; `jar` unless the coordinate names one.
    pub packaging: String,
}

/// The texts of an artifact's fields.
pub struct ArtifactView {
    pub group_id: Seq<char>,
    pub artifact_id: Seq<char>,
    pub version: Seq<char>,
    pub classifier: Option<Seq<char>>,
    pub packaging: Seq<char>,
}

pub open spec fn opt_view(o: Option<String>) -> Option<Seq<char>> {
    match o {
        Some(s) => Some(s@),
        None => None,
    }
}

impl View for MavenArtifact {
    type V = ArtifactView;

    open spec fn view(&self) -> ArtifactView {
        ArtifactView {
            group_id: self.group_id@,
            artifact_id: self.artifact_id@,
            version: self.version@,
            classifier: opt_view(self.classifier),
            packaging: self.packaging@,
        }
    }
}

/// What parsing a coordinate gives, if it has three or four `:`-parts.
pub open spec fn parse_coordinate(coord: Seq<char>) -> Option<ArtifactView> {
    let at = last_index_of(coord, '@');
    let part = if at >= 0 {
        coord.take(at)
    } else {
        coord
    };
    let packaging = if at >= 0 {
        coord.skip(at + 1)
    } else {
        "jar"@
    };
    let parts = split_spec(part, Sep::Char(':'));
    if parts.len() == 3 {
        Some(
            ArtifactView {
                group_id: parts[0],
                artifact_id: parts[1],
                version: parts[2],
                classifier: None,
                packaging,
            },
        )
    } else if parts.len() == 4 {
        Some(
            ArtifactView {
                group_id: parts[0],
                artifact_id: parts[1],
                version: parts[2],
                classifier: Some(parts[3]),
                packaging,
            },
        )
    } else {
        None
    }
}

/// `group:artifact:version[:classifier]@packaging`.
pub open spec fn coordinate_text(a: ArtifactView) -> Seq<char> {
    match a.classifier {
        Some(c) => a.group_id + ":"@ + a.artifact_id + ":"@ + a.version + ":"@ + c + "@"@
            + a.packaging,
        None => a.group_id + ":"@ + a.artifact_id + ":"@ + a.version + "@"@ + a.packaging,
    }
}

/// `.` replaced by `/`.
pub open spec fn group_path_of(group_id: Seq<char>) -> Seq<char> {
    spec_replace_all(group_id, seq!['.'], seq!['/'])
}

/// `artifactId-version[-classifier].packaging`.
pub open spec fn filename_of(a: ArtifactView) -> Seq<char> {
    match a.classifier {
        Some(c) => a.artifact_id + "-"@ + a.version + "-"@ + c + "."@ + a.packaging,
        None => a.artifact_id + "-"@ + a.version + "."@ + a.packaging,
    }
}

/// `<repo without trailing '/'>/<group path>/<artifactId>/<version>/<filename>`.
pub open spec fn url_of(a: ArtifactView, repo_base: Seq<char>) -> Seq<char> {
    trim_end_char_spec(repo_base, '/') + "/"@ + group_path_of(a.group_id) + "/"@ + a.artifact_id
        + "/"@ + a.version + "/"@ + filename_of(a)
}

/// `<group path>/<artifactId>/<version>/<filename>` as a relative path.
pub open spec fn local_path_of(a: ArtifactView) -> Seq<char> {
    path_join_result(
        path_join_result(path_join_result(group_path_of(a.group_id), a.artifact_id), a.version),
        filename_of(a),
    )
}

pub open spec fn has_char(s: Seq<char>, c: char) -> bool {
    exists|i: int| 0 <= i < s.len() && s[i] == c
}

fn seq_string(v: &Vec<char>, from: usize, to: usize) -> (r: String)
    requires
        from <= to <= v.len(),
    ensures
        r@ == v@.subrange(from as int, to as int),
{
    let part = copy_range(v, from, to);
    string_from_chars(part.as_slice())
}

impl MavenArtifact {
    /// Parses a Maven coordinate; anything but three or four `:`-parts
    /// (before the last `@`) is an invalid coordinate.
    pub fn parse(coord: &str) -> (r: Result<MavenArtifact, LauncherError>)
        ensures
            match parse_coordinate(coord@) {
                Some(a) => r is Ok && r->Ok_0@ == a,
                None => r is Err && match r->Err_0 {
                    LauncherError::InvalidMavenCoordinate(c) => c@ == coord@,
                    _ => false,
                },
            },
    {
        let v = chars_of(coord);
        let at = rfind_char(&v, '@');
        proof {
            lemma_last_index_of_bounds(v@, '@');
        }
        let (part, packaging) = match at {
            Some(i) => {
                let part = copy_range(&v, 0, i);
                let pk = seq_string(&v, i + 1, v.len());
                assert(part@ =~= v@.take(i as int));
                assert(pk@ =~= v@.skip(i + 1));
                (part, pk)
            },
            None => {
                let part = copy_range(&v, 0, v.len());
                assert(part@ =~= v@);
                (part, String::from_str("jar"))
            },
        };
        let parts = split_chars(&part, Sep::Char(':'));
        if parts.len() == 3 || parts.len() == 4 {
            let classifier = if parts.len() == 4 {
                Some(string_from_chars(parts[3].as_slice()))
            } else {
                None
            };
            Ok(
                MavenArtifact {
                    group_id: string_from_chars(parts[0].as_slice()),
                    artifact_id: string_from_chars(parts[1].as_slice()),
                    version: string_from_chars(parts[2].as_slice()),
                    classifier,
                    packaging,
                },
            )
        } else {
            Err(LauncherError::InvalidMavenCoordinate(String::from_str(coord)))
        }
    }

    /// The group as a path (`net.sf.jopt-simple` gives `net/sf/jopt-simple`).
    pub fn group_path(&self) -> (r: String)
        ensures
            r@ == group_path_of(self.group_id@),
    {
        proof {
            reveal_strlit(".");
            reveal_strlit("/");
            assert("."@ =~= seq!['.']);
            assert("/"@ =~= seq!['/']);
        }
        str_replace(self.group_id.as_str(), ".", "/")
    }

    /// The artifact's file name: `artifactId-version[-classifier].packaging`.
    pub fn filename(&self) -> (r: String)
        ensures
            r@ == filename_of(self@),
    {
        let mut r = String::from_str(self.artifact_id.as_str());
        r.append("-");
        r.append(self.version.as_str());
        match &self.classifier {
            Some(c) => {
                r.append("-");
                r.append(c.as_str());
            },
            None => {},
        }
        r.append(".");
        r.append(self.packaging.as_str());
        r
    }

    /// The artifact's URL under a repository base.
    pub fn url(&self, repo_base: &str) -> (r: String)
        ensures
            r@ == url_of(self@, repo_base@),
    {
        let base_chars = chars_of(repo_base);
        let base = trim_end_char(&base_chars, '/');
        let mut r = string_from_chars(base.as_slice());
        r.append("/");
        r.append(self.group_path().as_str());
        r.append("/");
        r.append(self.artifact_id.as_str());
        r.append("/");
        r.append(self.version.as_str());
        r.append("/");
        r.append(self.filename().as_str());
        r
    }

    /// The artifact's path relative to a libraries directory, in Maven's layout.
    pub fn local_path(&self) -> (r: String)
        ensures
            r@ == local_path_of(self@),
    {
        let g = self.group_path();
        let a = path_join(g.as_str(), self.artifact_id.as_str());
        let b = path_join(a.as_str(), self.version.as_str());
        path_join(b.as_str(), self.filename().as_str())
    }

    /// The same artifact with another packaging (such as `pom`).
    pub fn with_packaging(&self, packaging: &str) -> (r: MavenArtifact)
        ensures
            r.group_id == self.group_id,
            r.artifact_id == self.artifact_id,
            r.version == self.version,
            r.classifier == self.classifier,
            r.packaging@ == packaging@,
    {
        MavenArtifact {
            group_id: self.group_id.clone(),
            artifact_id: self.artifact_id.clone(),
            version: self.version.clone(),
            classifier: match &self.classifier {
                Some(c) => Some(c.clone()),
                None => None,
            },
            packaging: String::from_str(packaging),
        }
    }

    /// Whether the artifact is a POM.
    pub fn is_pom(&self) -> (b: bool)
        ensures
            b == (self.packaging@ == "pom"@),
    {
        str_eq(self.packaging.as_str(), "pom")
    }

    /// The coordinate written out in full: `group:artifact:version[:classifier]@packaging`.
    pub fn to_string(&self) -> (r: String)
        ensures
            r@ == coordinate_text(self@),
    {
        let mut r = String::from_str(self.group_id.as_str());
        r.append(":");
        r.append(self.artifact_id.as_str());
        r.append(":");
        r.append(self.version.as_str());
        match &self.classifier {
            Some(c) => {
                r.append(":");
                r.append(c.as_str());
            },
            None => {},
        }
        r.append("@");
        r.append(self.packaging.as_str());
        r
    }
}

/// Writing a coordinate out and parsing it again gives the same artifact,
/// when no field holds `:` and the packaging holds no `@`.
pub proof fn coordinate_round_trip(a: ArtifactView)
    requires
        !has_char(a.group_id, ':'),
        !has_char(a.artifact_id, ':'),
        !has_char(a.version, ':'),
        match a.classifier {
            Some(c) => !has_char(c, ':'),
            None => true,
        },
        !has_char(a.packaging, '@'),
    ensures
        parse_coordinate(coordinate_text(a)) == Some(a),
{
    reveal_strlit(":");
    reveal_strlit("@");
    let k = Sep::Char(':');
    let ga = a.group_id + seq![':'] + a.artifact_id;
    let gav = ga + seq![':'] + a.version;
    let part = match a.classifier {
        Some(c) => gav + seq![':'] + c,
        None => gav,
    };
    assert(coordinate_text(a) =~= part + seq!['@'] + a.packaging);
    lemma_last_index_after(part, '@', a.packaging);
    assert((part + seq!['@'] + a.packaging).take(part.len() as int) =~= part);
    assert((part + seq!['@'] + a.packaging).skip(part.len() as int + 1) =~= a.packaging);
    lemma_split_no_sep(a.group_id, k);
    lemma_split_no_sep(a.artifact_id, k);
    lemma_split_no_sep(a.version, k);
    lemma_split_concat(a.group_id, ':', a.artifact_id, k);
    lemma_split_concat(ga, ':', a.version, k);
    match a.classifier {
        Some(c) => {
            lemma_split_no_sep(c, k);
            lemma_split_concat(gav, ':', c, k);
            assert(split_spec(part, k) =~= seq![a.group_id, a.artifact_id, a.version, c]);
        },
        None => {
            assert(split_spec(part, k) =~= seq![a.group_id, a.artifact_id, a.version]);
        },
    }
}

/// `tail` is what `s` ends with when `s` is `head + tail`.
proof fn lemma_ends_with_tail(head: Seq<char>, tail: Seq<char>)
    ensures
        crate::text::seq_ends_with(head + tail, tail),
{
    let s = head + tail;
    assert(s.subrange(s.len() - tail.len(), s.len() as int) =~= tail);
}

/// The repository URL of an artifact ends with `/` and its file name
/// (`artifactId-version[-classifier].packaging`), the name its local path
/// ends with too; a classifier, when there is one, is part of that name.
#[verifier::spinoff_prover]
#[verifier::rlimit(60)]
pub proof fn url_ends_with_file_name(a: ArtifactView, repo_base: Seq<char>)
    ensures
        crate::text::seq_ends_with(url_of(a, repo_base), "/"@ + filename_of(a)),
        local_path_of(a) == path_join_result(
            path_join_result(path_join_result(group_path_of(a.group_id), a.artifact_id), a.version),
            filename_of(a),
        ),
        crate::text::seq_ends_with(url_of(a, repo_base), "."@ + a.packaging),
        a.classifier matches Some(c) ==> crate::text::seq_ends_with(
            url_of(a, repo_base),
            "-"@ + c + "."@ + a.packaging,
        ),
        a.classifier is None ==> crate::text::seq_ends_with(
            url_of(a, repo_base),
            "/"@ + a.artifact_id + "-"@ + a.version + "."@ + a.packaging,
        ),
{
    let head = trim_end_char_spec(repo_base, '/') + "/"@ + group_path_of(a.group_id) + "/"@
        + a.artifact_id + "/"@ + a.version;
    assert(url_of(a, repo_base) =~= head + ("/"@ + filename_of(a)));
    lemma_ends_with_tail(head, "/"@ + filename_of(a));
    match a.classifier {
        Some(c) => {
            let pre = a.artifact_id + "-"@ + a.version;
            assert(url_of(a, repo_base) =~= (head + "/"@ + pre) + ("-"@ + c + "."@ + a.packaging));
            lemma_ends_with_tail(head + "/"@ + pre, "-"@ + c + "."@ + a.packaging);
            assert(url_of(a, repo_base) =~= (head + "/"@ + pre + "-"@ + c) + ("."@ + a.packaging));
            lemma_ends_with_tail(head + "/"@ + pre + "-"@ + c, "."@ + a.packaging);
        },
        None => {
            let pre = a.artifact_id + "-"@ + a.version;
            assert(url_of(a, repo_base) =~= head + ("/"@ + a.artifact_id + "-"@ + a.version + "."@
                + a.packaging));
            lemma_ends_with_tail(head, "/"@ + a.artifact_id + "-"@ + a.version + "."@ + a.packaging);
            assert(url_of(a, repo_base) =~= (head + "/"@ + pre) + ("."@ + a.packaging));
            lemma_ends_with_tail(head + "/"@ + pre, "."@ + a.packaging);
        },
    }
}

/// The parts of a POM that dependency resolution reads.
#[derive(Debug)]
pub struct PomDocument {
    pub group_id: Option<String>,
    pub artifact_id: Option<String>,
    pub version: Option<String>,
    pub packaging: Option<String>,
    pub dependencies: Option<PomDependencies>,
    pub dependency_management: Option<PomDependencyManagement>,
}

#[derive(Debug)]
pub struct PomDependencies {
    pub items: Vec<PomDependency>,
}

#[derive(Debug)]
pub struct PomDependencyManagement {
    pub dependencies: Option<PomDependencies>,
}

/// One `<dependency>` of a POM.
#[derive(Debug, Clone)]
pub struct PomDependency {
    pub group_id: String,
    pub artifact_id: String,
    pub version: Option<String>,
    pub scope: Option<String>,
    pub optional: Option<bool>,
    pub dep_type: Option<String>,
    pub classifier: Option<String>,
    pub exclusions: Option<PomExclusions>,
}

#[derive(Debug, Clone)]
pub struct PomExclusions {
    pub items: Vec<PomExclusion>,
}

#[derive(Debug, Clone)]
pub struct PomExclusion {
    pub group_id: String,
    pub artifact_id: String,
}

fn copy_opt_string(o: &Option<String>) -> (r: Option<String>)
    ensures
        r == *o,
{
    match o {
        Some(s) => Some(s.clone()),
        None => None,
    }
}

impl PomExclusion {
    /// A field-by-field copy.
    pub fn duplicate(&self) -> (r: PomExclusion)
        ensures
            r == *self,
    {
        PomExclusion { group_id: self.group_id.clone(), artifact_id: self.artifact_id.clone() }
    }
}

impl PomExclusions {
    /// A field-by-field copy.
    pub fn duplicate(&self) -> (r: PomExclusions)
        ensures
            r.items@ == self.items@,
    {
        let mut items: Vec<PomExclusion> = Vec::new();
        let mut i: usize = 0;
        while i < self.items.len()
            invariant
                i <= self.items.len(),
                items@ == self.items@.take(i as int),
            decreases self.items.len() - i,
        {
            items.push(self.items[i].duplicate());
            i += 1;
            assert(items@ =~= self.items@.take(i as int));
        }
        assert(self.items@.take(self.items.len() as int) =~= self.items@);
        assert(items@ =~= self.items@);
        PomExclusions { items }
    }
}

impl PomDependency {
    /// A field-by-field copy.
    pub fn duplicate(&self) -> (r: PomDependency)
        ensures
            same_dependency(r, *self),
    {
        PomDependency {
            group_id: self.group_id.clone(),
            artifact_id: self.artifact_id.clone(),
            version: copy_opt_string(&self.version),
            scope: copy_opt_string(&self.scope),
            optional: self.optional,
            dep_type: copy_opt_string(&self.dep_type),
            classifier: copy_opt_string(&self.classifier),
            exclusions: match &self.exclusions {
                Some(e) => Some(e.duplicate()),
                None => None,
            },
        }
    }
}

/// Two dependencies with the same fields, exclusions compared by their items.
pub open spec fn same_dependency(a: PomDependency, b: PomDependency) -> bool {
    &&& a.group_id == b.group_id
    &&& a.artifact_id == b.artifact_id
    &&& a.version == b.version
    &&& a.scope == b.scope
    &&& a.optional == b.optional
    &&& a.dep_type == b.dep_type
    &&& a.classifier == b.classifier
    &&& match (a.exclusions, b.exclusions) {
        (Some(x), Some(y)) => x.items@ == y.items@,
        (None, None) => true,
        _ => false,
    }
}

/// Element by element, the same dependencies.
pub open spec fn same_dependencies(a: Seq<PomDependency>, b: Seq<PomDependency>) -> bool {
    a.len() == b.len() && forall|i: int| 0 <= i < a.len() ==> same_dependency(#[trigger] a[i], b[i])
}

/// The scope defaults to `compile` and `optional` to false; only
/// non-optional compile dependencies are followed.
pub open spec fn is_compile_dependency(d: PomDependency) -> bool {
    (match d.scope {
        Some(s) => s@ == "compile"@,
        None => true,
    }) && !(match d.optional {
        Some(b) => b,
        None => false,
    })
}

/// The compile dependencies among `deps`, in order.
pub open spec fn compile_filter(deps: Seq<PomDependency>) -> Seq<PomDependency>
    decreases deps.len(),
{
    if deps.len() == 0 {
        Seq::empty()
    } else {
        let rest = compile_filter(deps.drop_last());
        if is_compile_dependency(deps.last()) {
            rest.push(deps.last())
        } else {
            rest
        }
    }
}

/// Only dependencies of compile scope (stated, or by default) that are not
/// optional are followed, and every such dependency is: one of scope
/// `provided`, `runtime`, `system` or `test` never is. What is followed comes
/// from the list, in its order.
pub proof fn compile_filter_keeps_exactly_compile_scope(deps: Seq<PomDependency>)
    ensures
        forall|i: int|
            0 <= i < compile_filter(deps).len() ==> {
                let d = #[trigger] compile_filter(deps)[i];
                &&& deps.contains(d)
                &&& (d.scope is None || d.scope->0@ == "compile"@)
                &&& d.optional != Some(true)
            },
        forall|j: int|
            0 <= j < deps.len() && (deps[j].scope is None || deps[j].scope->0@ == "compile"@)
                && deps[j].optional != Some(true) ==> compile_filter(deps).contains(#[trigger] deps[j]),
        compile_filter(deps).len() <= deps.len(),
    decreases deps.len(),
{
    if deps.len() > 0 {
        let init = deps.drop_last();
        compile_filter_keeps_exactly_compile_scope(init);
        let rest = compile_filter(init);
        let r = compile_filter(deps);
        let last = deps.last();
        assert forall|i: int| 0 <= i < r.len() implies {
            let d = #[trigger] r[i];
            &&& deps.contains(d)
            &&& (d.scope is None || d.scope->0@ == "compile"@)
            &&& d.optional != Some(true)
        } by {
            if i < rest.len() {
                assert(r[i] == rest[i]);
                let d = rest[i];
                assert(init.contains(d));
                let t = choose|t: int| 0 <= t < init.len() && init[t] == d;
                assert(deps[t] == d);
            } else {
                assert(r[i] == last);
                assert(deps[deps.len() - 1] == last);
            }
        }
        assert forall|j: int|
            0 <= j < deps.len() && (deps[j].scope is None || deps[j].scope->0@ == "compile"@)
                && deps[j].optional != Some(true) implies r.contains(#[trigger] deps[j]) by {
            if j < deps.len() - 1 {
                assert(init[j] == deps[j]);
                assert(rest.contains(init[j]));
                let t = choose|t: int| 0 <= t < rest.len() && rest[t] == init[j];
                assert(r[t] == deps[j]);
            } else {
                assert(is_compile_dependency(last));
                assert(r[rest.len() as int] == deps[j]);
            }
        }
    }
}

/// The version of the first managed dependency with the same group and
/// artifact, searching from position `i`.
pub open spec fn managed_version_from(items: Seq<PomDependency>, group_id: Seq<char>, artifact_id: Seq<char>, i: int) -> Option<String>
    decreases items.len() - i,
{
    if i < 0 || i >= items.len() {
        None
    } else if items[i].group_id@ == group_id && items[i].artifact_id@ == artifact_id {
        items[i].version
    } else {
        managed_version_from(items, group_id, artifact_id, i + 1)
    }
}

pub open spec fn dependency_items(doc: PomDocument) -> Seq<PomDependency> {
    match doc.dependencies {
        Some(d) => d.items@,
        None => Seq::empty(),
    }
}

pub open spec fn managed_items(doc: PomDocument) -> Seq<PomDependency> {
    match doc.dependency_management {
        Some(dm) => match dm.dependencies {
            Some(d) => d.items@,
            None => Seq::empty(),
        },
        None => Seq::empty(),
    }
}

/// The version a dependency resolves to: its own, or else the one that
/// `dependencyManagement` gives it.
pub open spec fn resolved_version(doc: PomDocument, dep: PomDependency) -> Option<String> {
    match dep.version {
        Some(v) => Some(v),
        None => managed_version_from(managed_items(doc), dep.group_id@, dep.artifact_id@, 0),
    }
}

impl PomDocument {
    /// The version of `dep`, taken from `dependencyManagement` when the
    /// dependency names none.
    pub fn resolve_version(&self, dep: &PomDependency) -> (r: Option<String>)
        ensures
            r == resolved_version(*self, *dep),
    {
        if dep.version.is_some() {
            return copy_opt_string(&dep.version);
        }
        match &self.dependency_management {
            Some(dm) => match &dm.dependencies {
                Some(deps) => {
                    let items = &deps.items;
                    let mut i: usize = 0;
                    while i < items.len()
                        invariant
                            i <= items.len(),
                            items@ == managed_items(*self),
                            dep.version is None,
                            managed_version_from(items@, dep.group_id@, dep.artifact_id@, 0)
                                == managed_version_from(
                                items@,
                                dep.group_id@,
                                dep.artifact_id@,
                                i as int,
                            ),
                        decreases items.len() - i,
                    {
                        if str_eq(items[i].group_id.as_str(), dep.group_id.as_str()) && str_eq(
                            items[i].artifact_id.as_str(),
                            dep.artifact_id.as_str(),
                        ) {
                            return copy_opt_string(&items[i].version);
                        }
                        i += 1;
                    }
                    None
                },
                None => None,
            },
            None => None,
        }
    }

    /// The dependencies to follow: compile scope (the default) and not optional.
    pub fn compile_dependencies(&self) -> (r: Vec<PomDependency>)
        ensures
            same_dependencies(r@, compile_filter(dependency_items(*self))),
            forall|i: int|
                0 <= i < r@.len() ==> (#[trigger] r@[i].scope is None || r@[i].scope->0@ == "compile"@)
                    && r@[i].optional != Some(true),
    {
        proof {
            compile_filter_keeps_exactly_compile_scope(dependency_items(*self));
        }
        let deps = match &self.dependencies {
            Some(d) => &d.items,
            None => {
                return Vec::new();
            },
        };
        let mut out: Vec<PomDependency> = Vec::new();
        let mut i: usize = 0;
        while i < deps.len()
            invariant
                i <= deps.len(),
                same_dependencies(out@, compile_filter(deps@.take(i as int))),
            decreases deps.len() - i,
        {
            let d = &deps[i];
            assert(deps@.take(i + 1).drop_last() =~= deps@.take(i as int));
            let compile = match &d.scope {
                Some(s) => str_eq(s.as_str(), "compile"),
                None => true,
            };
            let optional = match d.optional {
                Some(b) => b,
                None => false,
            };
            if compile && !optional {
                out.push(d.duplicate());
            }
            i += 1;
        }
        assert(deps@.take(deps.len() as int) =~= deps@);
        out
    }
}

/// The coordinate that a dependency with a resolved version stands for; the
/// packaging is the dependency's type, `jar` by default.
pub open spec fn dependency_view(dep: PomDependency, version: Seq<char>) -> ArtifactView {
    ArtifactView {
        group_id: dep.group_id@,
        artifact_id: dep.artifact_id@,
        version: version,
        classifier: opt_view(dep.classifier),
        packaging: match dep.dep_type {
            Some(t) => t@,
            None => "jar"@,
        },
    }
}

/// The coordinates to resolve after a POM: one per compile dependency whose
/// version resolves, in order.
pub open spec fn child_coordinates_of(doc: PomDocument, deps: Seq<PomDependency>) -> Seq<Seq<char>>
    decreases deps.len(),
{
    if deps.len() == 0 {
        Seq::empty()
    } else {
        let rest = child_coordinates_of(doc, deps.drop_last());
        match resolved_version(doc, deps.last()) {
            Some(v) => rest.push(coordinate_text(dependency_view(deps.last(), v@))),
            None => rest,
        }
    }
}

/// `group:artifact:version[:classifier]@type` for a dependency.
pub fn dependency_coordinate(dep: &PomDependency, version: &str) -> (r: String)
    ensures
        r@ == coordinate_text(dependency_view(*dep, version@)),
{
    let mut r = String::from_str(dep.group_id.as_str());
    r.append(":");
    r.append(dep.artifact_id.as_str());
    r.append(":");
    r.append(version);
    match &dep.classifier {
        Some(c) => {
            r.append(":");
            r.append(c.as_str());
        },
        None => {},
    }
    r.append("@");
    match &dep.dep_type {
        Some(t) => r.append(t.as_str()),
        None => r.append("jar"),
    }
    r
}

impl PomDocument {
    /// The coordinates of the transitive dependencies to resolve next;
    /// dependencies whose version cannot be resolved are passed over.
    pub fn child_coordinates(&self) -> (r: Vec<String>)
        ensures
            crate::text::string_views(r@) == child_coordinates_of(
                *self,
                compile_filter(dependency_items(*self)),
            ),
    {
        let deps = self.compile_dependencies();
        let ghost filtered = compile_filter(dependency_items(*self));
        let mut out: Vec<String> = Vec::new();
        let mut i: usize = 0;
        while i < deps.len()
            invariant
                i <= deps.len(),
                same_dependencies(deps@, filtered),
                crate::text::string_views(out@) == child_coordinates_of(
                    *self,
                    filtered.take(i as int),
                ),
            decreases deps.len() - i,
        {
            assert(filtered.take(i + 1).drop_last() =~= filtered.take(i as int));
            assert(same_dependency(deps@[i as int], filtered[i as int]));
            let ghost before = crate::text::string_views(out@);
            match self.resolve_version(&deps[i]) {
                Some(v) => {
                    let c = dependency_coordinate(&deps[i], v.as_str());
                    out.push(c);
                    assert(crate::text::string_views(out@) =~= before.push(c@));
                },
                None => {},
            }
            i += 1;
        }
        assert(filtered.take(deps.len() as int) =~= filtered);
        out
    }
}

/// Resolves artifacts transitively. The I/O of a resolution (downloads, the
/// file system) is done by the caller; the resolver keeps the repositories
/// and which artifacts a session has already taken up.
pub struct MavenResolver {
    /// Repository base URLs, searched in order.
    pub repositories: Vec<String>,
    /// Full coordinates of the artifacts taken up so far; none twice.
    resolved: Vec<String>,
}

pub open spec fn no_duplicates(s: Seq<String>) -> bool {
    forall|i: int, j: int| 0 <= i < j < s.len() ==> s[i]@ != s[j]@
}

pub open spec fn holds_text(s: Seq<String>, t: Seq<char>) -> bool {
    exists|i: int| 0 <= i < s.len() && s[i]@ == t
}

impl MavenResolver {
    /// The coordinates taken up so far, in order.
    pub closed spec fn resolved_keys(&self) -> Seq<String> {
        self.resolved@
    }

    /// The repositories, in search order.
    pub closed spec fn repository_list(&self) -> Seq<String> {
        self.repositories@
    }

    pub closed spec fn wf(&self) -> bool {
        no_duplicates(self.resolved@)
    }

    /// A resolver over `repositories` that has resolved nothing yet.
    pub fn new(repositories: Vec<String>) -> (r: MavenResolver)
        ensures
            r.wf(),
            r.repository_list() == repositories@,
            r.resolved_keys().len() == 0,
    {
        MavenResolver { repositories, resolved: Vec::new() }
    }

    /// Takes up `artifact`: `false` when it was taken up before in this
    /// session (so it is not resolved twice); else records it and gives `true`.
    pub fn begin_artifact(&mut self, artifact: &MavenArtifact) -> (fresh: bool)
        requires
            old(self).wf(),
        ensures
            final(self).wf(),
            final(self).repository_list() == old(self).repository_list(),
            fresh == !holds_text(old(self).resolved_keys(), coordinate_text(artifact@)),
            fresh ==> final(self).resolved_keys().len() == old(self).resolved_keys().len() + 1
                && final(self).resolved_keys().drop_last() == old(self).resolved_keys()
                && final(self).resolved_keys().last()@ == coordinate_text(artifact@),
            !fresh ==> final(self).resolved_keys() == old(self).resolved_keys(),
            holds_text(final(self).resolved_keys(), coordinate_text(artifact@)),
    {
        let key = artifact.to_string();
        let mut i: usize = 0;
        while i < self.resolved.len()
            invariant
                i <= self.resolved.len(),
                *self == *old(self),
                self.wf(),
                key@ == coordinate_text(artifact@),
                forall|j: int| 0 <= j < i ==> self.resolved@[j]@ != key@,
            decreases self.resolved.len() - i,
        {
            if str_eq(self.resolved[i].as_str(), key.as_str()) {
                assert(self.resolved@[i as int]@ == key@);
                return false;
            }
            i += 1;
        }
        let ghost before = self.resolved@;
        self.resolved.push(key);
        assert(self.resolved@.drop_last() =~= before);
        assert(self.resolved@[before.len() as int]@ == coordinate_text(artifact@));
        true
    }

    /// The URLs to try for `artifact`, one per repository, in order.
    pub fn candidate_urls(&self, artifact: &MavenArtifact) -> (r: Vec<String>)
        ensures
            r.len() == self.repository_list().len(),
            forall|i: int|
                0 <= i < r.len() ==> #[trigger] r@[i]@ == url_of(
                    artifact@,
                    self.repository_list()[i]@,
                ),
    {
        let mut out: Vec<String> = Vec::new();
        let mut i: usize = 0;
        while i < self.repositories.len()
            invariant
                i <= self.repositories.len(),
                out.len() == i,
                forall|j: int|
                    0 <= j < i ==> #[trigger] out@[j]@ == url_of(artifact@, self.repositories@[j]@),
            decreases self.repositories.len() - i,
        {
            out.push(artifact.url(self.repositories[i].as_str()));
            i += 1;
        }
        out
    }
}

/// `No repositories configured for <coordinate>`: what a download reports
/// when there is no repository to try.
pub fn no_repository_error(artifact: &MavenArtifact) -> (e: LauncherError)
    ensures
        match e {
            LauncherError::Other(m) => m@ == "No repositories configured for "@ + coordinate_text(
                artifact@,
            ),
            _ => false,
        },
{
    let mut m = String::from_str("No repositories configured for ");
    m.append(artifact.to_string().as_str());
    LauncherError::Other(m)
}

} // verus!
