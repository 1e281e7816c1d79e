//! A transitive Maven resolution, step by step: the session decides what is
//! fetched next, the caller fetches it (downloads, reads the POM) and reports
//! back what came of it.
use vstd::prelude::*;

use crate::error::LauncherError;
use crate::maven::{
    coordinate_text, holds_text, local_path_of, parse_coordinate, ArtifactView, MavenArtifact,
    MavenResolver,
};
use crate::platform::{path_join, path_join_result};
use crate::text::string_views;

verus! {

/// A resolution in progress.
pub struct ResolveSession {
    /// The libraries directory that artifact files are laid out under.
    pub libs_dir: String,
    /// The coordinates still to take up, as a stack: the last one is next.
    pub pending: Vec<String>,
    /// The artifact being fetched.
    pub current: Option<MavenArtifact>,
    /// The jar files collected so far, in order.
    pub collected: Vec<String>,
}

/// What the caller reports after performing an action.
pub enum ResolveEvent {
    /// The resolution starts.
    Start,
    /// Whether the jar asked for is on disk now (it was there already, or its
    /// download succeeded).
    JarFetched(bool),
    /// The child coordinates of the POM asked for; `None` when the POM could
    /// not be had or not be parsed.
    PomRead(Option<Vec<String>>),
}

/// What the caller is to do next.
pub enum ResolveAction {
    /// Make sure the jar of `artifact` is at `dest` (download it when missing).
    FetchJar { artifact: MavenArtifact, dest: String },
    /// Make sure the POM `artifact` is at `dest`, then read its children.
    FetchPom { artifact: MavenArtifact, dest: String },
    /// The resolution is over; these are the jar files, in order.
    Finished(Vec<String>),
    /// A coordinate could not be parsed; the resolution fails with this error.
    Failed(LauncherError),
}

/// Where the file of `a` lies under the libraries directory.
pub open spec fn file_path_of(libs_dir: Seq<char>, a: ArtifactView) -> Seq<char> {
    path_join_result(libs_dir, local_path_of(a))
}

/// The POM of an artifact.
pub open spec fn as_pom(a: ArtifactView) -> ArtifactView {
    ArtifactView { packaging: "pom"@, ..a }
}

/// `p` is the file of an artifact that is not a POM.
pub open spec fn is_jar_file(libs_dir: Seq<char>, p: Seq<char>) -> bool {
    exists|a: ArtifactView| a.packaging != "pom"@ && p == #[trigger] file_path_of(libs_dir, a)
}

/// `coord` parses, and the resolver has taken up its artifact already.
pub open spec fn taken_up(keys: Seq<String>, coord: Seq<char>) -> bool {
    match parse_coordinate(coord) {
        Some(a) => holds_text(keys, coordinate_text(a)),
        None => false,
    }
}

/// The resolver took up `a` just now: it had not before, and it is the one
/// key added.
pub open spec fn took_up(keys: Seq<String>, keys2: Seq<String>, a: ArtifactView) -> bool {
    &&& !holds_text(keys, coordinate_text(a))
    &&& keys2.len() == keys.len() + 1
    &&& keys2.drop_last() == keys
    &&& keys2.last()@ == coordinate_text(a)
}

/// The event finishes the jar step of the artifact being fetched.
pub open spec fn continues_current(s: ResolveSession, event: ResolveEvent) -> bool {
    event is JarFetched && s.current is Some
}

/// The jar file that the event adds to the collection, if any.
pub open spec fn jar_added(s: ResolveSession, event: ResolveEvent) -> Option<Seq<char>> {
    match event {
        ResolveEvent::JarFetched(ok) => match s.current {
            Some(a) => if ok && a@.packaging != "pom"@ {
                Some(file_path_of(s.libs_dir@, a@))
            } else {
                None
            },
            None => None,
        },
        _ => None,
    }
}

/// The stack of coordinates once the event is taken in: a POM's children go
/// on top, the first child topmost.
pub open spec fn stack_after(s: ResolveSession, event: ResolveEvent) -> Seq<Seq<char>> {
    match event {
        ResolveEvent::PomRead(Some(children)) => string_views(s.pending@) + string_views(
            children@,
        ).reverse(),
        _ => string_views(s.pending@),
    }
}

/// Taking coordinates off the stack `st`: those already taken up are passed
/// over; the first that is not ends the search with a fetch of it (its jar,
/// or its POM when it is one); one that does not parse fails the resolution;
/// an empty stack finishes it. `keys` are the resolver's keys before, `keys2`
/// after, `s2` the session after.
pub open spec fn advanced(
    st: Seq<Seq<char>>,
    keys: Seq<String>,
    s2: ResolveSession,
    keys2: Seq<String>,
    action: ResolveAction,
) -> bool {
    let n = s2.pending@.len();
    &&& n <= st.len()
    &&& string_views(s2.pending@) == st.take(n as int)
    &&& forall|k: int| n < k < st.len() ==> taken_up(keys, #[trigger] st[k])
    &&& match action {
        ResolveAction::Finished(paths) => {
            &&& n == 0
            &&& forall|k: int| 0 <= k < st.len() ==> taken_up(keys, #[trigger] st[k])
            &&& string_views(paths@) == string_views(s2.collected@)
            &&& s2.current is None
            &&& keys2 == keys
        },
        ResolveAction::FetchJar { artifact, dest } => {
            &&& n < st.len()
            &&& parse_coordinate(st[n as int]) == Some(artifact@)
            &&& artifact@.packaging != "pom"@
            &&& dest@ == file_path_of(s2.libs_dir@, artifact@)
            &&& took_up(keys, keys2, artifact@)
            &&& s2.current matches Some(c) && c@ == artifact@
        },
        ResolveAction::FetchPom { artifact, dest } => {
            &&& n < st.len()
            &&& parse_coordinate(st[n as int]) == Some(artifact@)
            &&& artifact@.packaging == "pom"@
            &&& dest@ == file_path_of(s2.libs_dir@, artifact@)
            &&& took_up(keys, keys2, artifact@)
            &&& s2.current matches Some(c) && c@ == artifact@
        },
        ResolveAction::Failed(e) => {
            &&& n < st.len()
            &&& parse_coordinate(st[n as int]) is None
            &&& keys2 == keys
            &&& e matches LauncherError::InvalidMavenCoordinate(c) && c@ == st[n as int]
        },
    }
}

fn copy_paths(v: &Vec<String>) -> (r: Vec<String>)
    ensures
        r@ == v@,
{
    let mut out: Vec<String> = Vec::new();
    let mut i: usize = 0;
    while i < v.len()
        invariant
            i <= v.len(),
            out@ == v@.take(i as int),
        decreases v.len() - i,
    {
        out.push(v[i].clone());
        i += 1;
        assert(out@ =~= v@.take(i as int));
    }
    assert(v@.take(v.len() as int) =~= v@);
    out
}

impl ResolveSession {
    /// Every collected file is the file of an artifact that is not a POM.
    pub open spec fn wf(&self) -> bool {
        forall|i: int|
            0 <= i < self.collected@.len() ==> is_jar_file(
                self.libs_dir@,
                #[trigger] self.collected@[i]@,
            )
    }

    /// A resolution of `coord` under `libs_dir`.
    pub fn new(libs_dir: String, coord: String) -> (r: ResolveSession)
        ensures
            r.wf(),
            r.libs_dir == libs_dir,
            string_views(r.pending@) == seq![coord@],
            r.current is None,
            r.collected@.len() == 0,
    {
        let mut pending: Vec<String> = Vec::new();
        pending.push(coord);
        let r = ResolveSession { libs_dir, pending, current: None, collected: Vec::new() };
        assert(string_views(r.pending@) =~= seq![coord@]);
        r
    }

    fn push_children(&mut self, children: Vec<String>)
        ensures
            string_views(final(self).pending@) == string_views(old(self).pending@) + string_views(
                children@,
            ).reverse(),
            final(self).libs_dir == old(self).libs_dir,
            final(self).current == old(self).current,
            final(self).collected == old(self).collected,
    {
        let ghost p0 = string_views(self.pending@);
        let ghost orig = string_views(children@);
        let mut rest = children;
        while rest.len() > 0
            invariant
                rest@.len() <= orig.len(),
                string_views(rest@) == orig.take(rest@.len() as int),
                string_views(self.pending@) == p0 + orig.reverse().take(
                    orig.len() - rest@.len(),
                ),
                orig == string_views(children@),
                p0 == string_views(old(self).pending@),
                self.libs_dir == old(self).libs_dir,
                self.current == old(self).current,
                self.collected == old(self).collected,
            decreases rest@.len(),
        {
            let ghost before = string_views(self.pending@);
            let ghost m = orig.len() - rest@.len();
            let ghost rest_before = rest@;
            assert(string_views(rest_before)[rest_before.len() - 1] == rest_before[rest_before.len() - 1]@);
            assert(orig.take(rest_before.len() as int)[rest_before.len() - 1] == orig[rest_before.len() - 1]);
            let c = rest.pop().unwrap();
            assert(c@ == orig[rest@.len() as int]);
            assert(orig.reverse()[m] == orig[rest@.len() as int]);
            self.pending.push(c);
            assert(orig.reverse().take(m + 1) =~= orig.reverse().take(m).push(c@));
            assert(string_views(self.pending@) =~= before.push(c@));
            assert(string_views(rest@) =~= orig.take(rest@.len() as int));
        }
        assert(orig.reverse().take(orig.len() as int) =~= orig.reverse());
    }

    fn advance(&mut self, resolver: &mut MavenResolver) -> (action: ResolveAction)
        requires
            old(self).wf(),
            old(resolver).wf(),
        ensures
            final(self).wf(),
            final(resolver).wf(),
            final(self).libs_dir == old(self).libs_dir,
            final(self).collected == old(self).collected,
            final(resolver).repository_list() == old(resolver).repository_list(),
            advanced(
                string_views(old(self).pending@),
                old(resolver).resolved_keys(),
                *final(self),
                final(resolver).resolved_keys(),
                action,
            ),
    {
        let ghost st = string_views(self.pending@);
        let ghost keys = resolver.resolved_keys();
        loop
            invariant
                self.wf(),
                resolver.wf(),
                self.libs_dir == old(self).libs_dir,
                self.collected == old(self).collected,
                resolver.repository_list() == old(resolver).repository_list(),
                resolver.resolved_keys() == keys,
                keys == old(resolver).resolved_keys(),
                st == string_views(old(self).pending@),
                self.pending@.len() <= st.len(),
                string_views(self.pending@) == st.take(self.pending@.len() as int),
                forall|k: int| self.pending@.len() <= k < st.len() ==> taken_up(keys, #[trigger] st[k]),
            decreases self.pending@.len(),
        {
            let ghost before = self.pending@;
            match self.pending.pop() {
                None => {
                    self.current = None;
                    let paths = copy_paths(&self.collected);
                    return ResolveAction::Finished(paths);
                },
                Some(coord) => {
                    let ghost n = self.pending@.len();
                    assert(st[n as int] == string_views(before)[n as int]);
                    assert(coord@ == st[n as int]);
                    assert(string_views(self.pending@) =~= st.take(n as int));
                    match MavenArtifact::parse(coord.as_str()) {
                        Err(e) => {
                            return ResolveAction::Failed(e);
                        },
                        Ok(a) => {
                            if resolver.begin_artifact(&a) {
                                let dest = path_join(self.libs_dir.as_str(), a.local_path().as_str());
                                let kept = a.with_packaging(a.packaging.as_str());
                                self.current = Some(kept);
                                if a.is_pom() {
                                    return ResolveAction::FetchPom { artifact: a, dest };
                                } else {
                                    return ResolveAction::FetchJar { artifact: a, dest };
                                }
                            }
                            assert(taken_up(keys, st[n as int]));
                        },
                    }
                },
            }
        }
    }

    /// Takes in what the caller reports and says what to do next.
    ///
    /// After a jar step the POM of the same artifact is fetched, and the jar
    /// joins the collection when it is on disk. After a POM step its children
    /// go on the stack, first child on top, and the next coordinate not yet
    /// taken up is fetched. So the collection holds jar files only, and the
    /// resolver takes up each coordinate at most once.
    pub fn step(&mut self, resolver: &mut MavenResolver, event: ResolveEvent) -> (action: ResolveAction)
        requires
            old(self).wf(),
            old(resolver).wf(),
        ensures
            final(self).wf(),
            final(resolver).wf(),
            final(self).libs_dir == old(self).libs_dir,
            final(resolver).repository_list() == old(resolver).repository_list(),
            string_views(final(self).collected@) == match jar_added(*old(self), event) {
                Some(p) => string_views(old(self).collected@).push(p),
                None => string_views(old(self).collected@),
            },
            continues_current(*old(self), event) ==> {
                &&& action matches ResolveAction::FetchPom { artifact, dest } && artifact@ == as_pom(
                    old(self).current->0@,
                ) && dest@ == file_path_of(old(self).libs_dir@, artifact@)
                &&& final(resolver).resolved_keys() == old(resolver).resolved_keys()
                &&& final(self).pending == old(self).pending
                &&& final(self).current == old(self).current
            },
            !continues_current(*old(self), event) ==> advanced(
                stack_after(*old(self), event),
                old(resolver).resolved_keys(),
                *final(self),
                final(resolver).resolved_keys(),
                action,
            ),
            action matches ResolveAction::Finished(paths) ==> forall|i: int|
                0 <= i < paths@.len() ==> is_jar_file(final(self).libs_dir@, #[trigger] paths@[i]@),
    {
        let children: Option<Vec<String>> = match event {
            ResolveEvent::Start => None,
            ResolveEvent::JarFetched(ok) => {
                let mut jar: Option<String> = None;
                let mut pom: Option<MavenArtifact> = None;
                match &self.current {
                    Some(a) => {
                        if ok && !a.is_pom() {
                            jar = Some(path_join(self.libs_dir.as_str(), a.local_path().as_str()));
                        }
                        pom = Some(a.with_packaging("pom"));
                    },
                    None => {},
                }
                let ghost before = self.collected@;
                match jar {
                    Some(p) => {
                        self.collected.push(p);
                        proof {
                            let a = old(self).current->0@;
                            assert(is_jar_file(self.libs_dir@, file_path_of(self.libs_dir@, a)));
                            assert(string_views(self.collected@) =~= string_views(before).push(p@));
                        }
                    },
                    None => {},
                }
                match pom {
                    Some(artifact) => {
                        let dest = path_join(self.libs_dir.as_str(), artifact.local_path().as_str());
                        return ResolveAction::FetchPom { artifact, dest };
                    },
                    None => {},
                }
                None
            },
            ResolveEvent::PomRead(found) => {
                self.current = None;
                found
            },
        };
        match children {
            Some(c) => self.push_children(c),
            None => {},
        }
        let action = self.advance(resolver);
        proof {
            match &action {
                ResolveAction::Finished(paths) => {
                    assert forall|i: int| 0 <= i < paths@.len() implies is_jar_file(
                        self.libs_dir@,
                        #[trigger] paths@[i]@,
                    ) by {
                        assert(string_views(paths@).len() == paths@.len());
                        assert(string_views(self.collected@).len() == self.collected@.len());
                        assert(string_views(paths@)[i] == paths@[i]@);
                        assert(string_views(self.collected@)[i] == self.collected@[i]@);
                    }
                },
                _ => {},
            }
        }
        action
    }
}

} // verus!
