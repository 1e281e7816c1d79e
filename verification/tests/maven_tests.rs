use std::path::PathBuf;

use interface_lib::error::LauncherError;
use interface_lib::loaders::FabricInstaller;
use interface_lib::maven_session::{ResolveAction, ResolveEvent, ResolveSession};
use interface_lib::maven::{
    dependency_coordinate, no_repository_error, MavenArtifact, MavenResolver, PomDependencies,
    PomDependency, PomDependencyManagement, PomDocument,
};

fn dep(group: &str, artifact: &str, version: Option<&str>, scope: Option<&str>) -> PomDependency {
    PomDependency {
        group_id: group.to_string(),
        artifact_id: artifact.to_string(),
        version: version.map(|v| v.to_string()),
        scope: scope.map(|s| s.to_string()),
        optional: None,
        dep_type: None,
        classifier: None,
        exclusions: None,
    }
}

fn pom(deps: Vec<PomDependency>, managed: Vec<PomDependency>) -> PomDocument {
    PomDocument {
        group_id: Some("com.example".to_string()),
        artifact_id: Some("demo".to_string()),
        version: Some("1.0".to_string()),
        packaging: Some("pom".to_string()),
        dependencies: Some(PomDependencies { items: deps }),
        dependency_management: Some(PomDependencyManagement {
            dependencies: Some(PomDependencies { items: managed }),
        }),
    }
}

#[test]
fn parse_simple_coordinate() {
    let a = MavenArtifact::parse("net.sf.jopt-simple:jopt-simple:5.0.4").unwrap();
    assert_eq!(a.group_id, "net.sf.jopt-simple");
    assert_eq!(a.artifact_id, "jopt-simple");
    assert_eq!(a.version, "5.0.4");
    assert_eq!(a.classifier, None);
    assert_eq!(a.packaging, "jar");
}

#[test]
fn parse_with_classifier() {
    let a = MavenArtifact::parse("org.lwjgl:lwjgl:3.3.3:natives-windows").unwrap();
    assert_eq!(a.classifier, Some("natives-windows".to_string()));
}

#[test]
fn parse_with_packaging_override() {
    let a = MavenArtifact::parse("com.example:lib:1.0@pom").unwrap();
    assert_eq!(a.packaging, "pom");
}

#[test]
fn url_construction() {
    let a = MavenArtifact::parse("net.sf.jopt-simple:jopt-simple:5.0.4").unwrap();
    let url = a.url("https://libraries.minecraft.net");
    assert_eq!(
        url,
        "https://libraries.minecraft.net/net/sf/jopt-simple/jopt-simple/5.0.4/jopt-simple-5.0.4.jar"
    );
}

#[test]
fn local_path_construction() {
    let a = MavenArtifact::parse("org.lwjgl:lwjgl:3.3.3:natives-windows").unwrap();
    let p = PathBuf::from(a.local_path());
    assert_eq!(
        p,
        PathBuf::from("org/lwjgl/lwjgl/3.3.3/lwjgl-3.3.3-natives-windows.jar")
    );
}

#[test]
fn invalid_coordinates_are_rejected() {
    match MavenArtifact::parse("just-a-name") {
        Err(LauncherError::InvalidMavenCoordinate(c)) => assert_eq!(c, "just-a-name"),
        _ => panic!("expected an invalid coordinate"),
    }
    assert!(MavenArtifact::parse("a:b:c:d:e").is_err());
    assert!(MavenArtifact::parse("a:b@jar").is_err());
}

#[test]
fn coordinates_round_trip_through_their_text() {
    for coord in ["g:a:1.0@jar", "org.lwjgl:lwjgl:3.3.3:natives-linux@jar", "com.x:y:2@pom"] {
        let a = MavenArtifact::parse(coord).unwrap();
        assert_eq!(a.to_string(), coord);
        assert_eq!(MavenArtifact::parse(&a.to_string()).unwrap(), a);
    }
    let a = MavenArtifact::parse("g:a:1").unwrap();
    assert_eq!(a.to_string(), "g:a:1@jar");
}

#[test]
fn artifact_helpers() {
    let a = MavenArtifact::parse("org.ow2.asm:asm:9.7").unwrap();
    assert_eq!(a.group_path(), "org/ow2/asm");
    assert_eq!(a.filename(), "asm-9.7.jar");
    assert!(!a.is_pom());
    let p = a.with_packaging("pom");
    assert!(p.is_pom());
    assert_eq!(p.filename(), "asm-9.7.pom");
    assert_eq!(a.url("https://repo/"), "https://repo/org/ow2/asm/asm/9.7/asm-9.7.jar");
}

#[test]
fn compile_dependencies_skip_test_scope_and_optional_ones() {
    let mut optional = dep("x", "opt", Some("1"), None);
    optional.optional = Some(true);
    let doc = pom(
        vec![
            dep("org.lwjgl", "lwjgl", Some("3.3.3"), None),
            dep("junit", "junit", Some("4.13"), Some("test")),
            optional,
            dep("a", "b", None, Some("compile")),
        ],
        vec![],
    );
    let compile = doc.compile_dependencies();
    assert_eq!(compile.len(), 2);
    assert_eq!(compile[0].artifact_id, "lwjgl");
    assert_eq!(compile[1].artifact_id, "b");
}

#[test]
fn versions_come_from_dependency_management() {
    let doc = pom(
        vec![dep("a", "b", None, None), dep("c", "d", Some("2"), None), dep("e", "f", None, None)],
        vec![dep("a", "b", Some("1.5"), None)],
    );
    assert_eq!(doc.resolve_version(&doc.dependencies.as_ref().unwrap().items[0]), Some("1.5".to_string()));
    assert_eq!(doc.resolve_version(&doc.dependencies.as_ref().unwrap().items[1]), Some("2".to_string()));
    assert_eq!(doc.resolve_version(&doc.dependencies.as_ref().unwrap().items[2]), None);
    let children = doc.child_coordinates();
    assert_eq!(children, vec!["a:b:1.5@jar", "c:d:2@jar"]);
}

#[test]
fn dependency_coordinates_carry_classifier_and_type() {
    let mut d = dep("org.lwjgl", "lwjgl", None, None);
    d.classifier = Some("natives-linux".to_string());
    d.dep_type = Some("zip".to_string());
    assert_eq!(dependency_coordinate(&d, "3.3.3"), "org.lwjgl:lwjgl:3.3.3:natives-linux@zip");
}

#[test]
fn resolver_takes_up_each_artifact_once() {
    let mut resolver = MavenResolver::new(vec!["https://a".to_string(), "https://b/".to_string()]);
    let a = MavenArtifact::parse("g:a:1").unwrap();
    assert!(resolver.begin_artifact(&a));
    assert!(!resolver.begin_artifact(&a));
    let b = MavenArtifact::parse("g:a:1:x").unwrap();
    assert!(resolver.begin_artifact(&b));
    let urls = resolver.candidate_urls(&a);
    assert_eq!(urls, vec!["https://a/g/a/1/a-1.jar", "https://b/g/a/1/a-1.jar"]);
    assert_eq!(
        no_repository_error(&a).message(),
        "No repositories configured for g:a:1@jar"
    );
}

#[test]
fn ensure_loader_artifact_adds_fabric_loader_coordinate() {
    let mut libs = vec!["net.fabricmc:intermediary:1.21.1".to_string()];
    FabricInstaller::ensure_loader_artifact(&mut libs, "0.16.10");
    assert!(libs.iter().any(|lib| lib == "net.fabricmc:fabric-loader:0.16.10"));
}

#[test]
fn ensure_loader_artifact_keeps_existing_coordinate_unique() {
    let mut libs = vec!["net.fabricmc:fabric-loader:0.16.10".to_string()];
    FabricInstaller::ensure_loader_artifact(&mut libs, "0.16.10");
    assert_eq!(
        libs.iter()
            .filter(|lib| lib.as_str() == "net.fabricmc:fabric-loader:0.16.10")
            .count(),
        1
    );
}

fn expect_jar(action: ResolveAction) -> (String, String) {
    match action {
        ResolveAction::FetchJar { artifact, dest } => (artifact.to_string(), dest),
        _ => panic!("expected a jar fetch"),
    }
}

fn expect_pom(action: ResolveAction) -> (String, String) {
    match action {
        ResolveAction::FetchPom { artifact, dest } => (artifact.to_string(), dest),
        _ => panic!("expected a POM fetch"),
    }
}

#[test]
fn resolution_session_walks_dependencies_depth_first() {
    let mut resolver = MavenResolver::new(vec!["https://repo".to_string()]);
    let mut session = ResolveSession::new("/libs".to_string(), "g:root:1".to_string());
    let (coord, dest) = expect_jar(session.step(&mut resolver, ResolveEvent::Start));
    assert_eq!(coord, "g:root:1@jar");
    assert_eq!(PathBuf::from(dest), PathBuf::from("/libs/g/root/1/root-1.jar"));
    let (coord, dest) = expect_pom(session.step(&mut resolver, ResolveEvent::JarFetched(true)));
    assert_eq!(coord, "g:root:1@pom");
    assert_eq!(PathBuf::from(dest), PathBuf::from("/libs/g/root/1/root-1.pom"));
    let children = vec!["g:a:1".to_string(), "g:b:1".to_string()];
    let (coord, _) = expect_jar(session.step(&mut resolver, ResolveEvent::PomRead(Some(children))));
    assert_eq!(coord, "g:a:1@jar");
    // a's jar could not be had: it is not collected, but its POM is still read.
    let (coord, _) = expect_pom(session.step(&mut resolver, ResolveEvent::JarFetched(false)));
    assert_eq!(coord, "g:a:1@pom");
    // a depends on the root again, and on b: the root is not taken up twice.
    let children = vec!["g:root:1".to_string(), "g:b:1".to_string()];
    let (coord, _) = expect_jar(session.step(&mut resolver, ResolveEvent::PomRead(Some(children))));
    assert_eq!(coord, "g:b:1@jar");
    let _ = expect_pom(session.step(&mut resolver, ResolveEvent::JarFetched(true)));
    // b's POM is missing; the b left from the root's list is passed over.
    match session.step(&mut resolver, ResolveEvent::PomRead(None)) {
        ResolveAction::Finished(paths) => {
            let paths: Vec<PathBuf> = paths.into_iter().map(PathBuf::from).collect();
            assert_eq!(paths, vec![PathBuf::from("/libs/g/root/1/root-1.jar"), PathBuf::from("/libs/g/b/1/b-1.jar")]);
        }
        _ => panic!("expected the end of the resolution"),
    }
}

#[test]
fn resolution_session_fetches_only_the_pom_of_a_pom_artifact() {
    let mut resolver = MavenResolver::new(vec![]);
    let mut session = ResolveSession::new("/libs".to_string(), "g:bom:2@pom".to_string());
    let (coord, _) = expect_pom(session.step(&mut resolver, ResolveEvent::Start));
    assert_eq!(coord, "g:bom:2@pom");
    match session.step(&mut resolver, ResolveEvent::PomRead(Some(vec![]))) {
        ResolveAction::Finished(paths) => assert!(paths.is_empty()),
        _ => panic!("expected the end of the resolution"),
    }
}

#[test]
fn resolution_session_fails_on_a_bad_coordinate() {
    let mut resolver = MavenResolver::new(vec![]);
    let mut session = ResolveSession::new("/libs".to_string(), "g:ok:1".to_string());
    let _ = expect_jar(session.step(&mut resolver, ResolveEvent::Start));
    let _ = expect_pom(session.step(&mut resolver, ResolveEvent::JarFetched(true)));
    match session.step(&mut resolver, ResolveEvent::PomRead(Some(vec!["broken".to_string()]))) {
        ResolveAction::Failed(LauncherError::InvalidMavenCoordinate(c)) => assert_eq!(c, "broken"),
        _ => panic!("expected a coordinate error"),
    }
}
