//! Mojang version JSON: library rules, argument lists and the version
//! manifest.
use vstd::prelude::*;

use crate::platform::{os_name, HostOs};
use crate::text::{str_eq, string_views};

verus! {

/// Whether a rule lets something in or keeps it out.
#[derive(Debug, Clone, Copy, PartialEq, Eq, Structural)]
pub enum RuleAction {
    Allow,
    Disallow,
}

/// The operating system a rule is about.
#[derive(Debug, Clone)]
pub struct OsRule {
    pub name: Option<String>,
    pub arch: Option<String>,
    pub version: Option<String>,
}

/// One rule of a library.
#[derive(Debug, Clone)]
pub struct LibraryRule {
    pub action: RuleAction,
    pub os: Option<OsRule>,
}

/// The main artifact of a library.
#[derive(Debug, Clone)]
pub struct LibDownloadArtifact {
    pub path: String,
    pub sha1: String,
    pub size: u64,
    pub url: String,
}

/// A native classifier download; a field that is missing or not a string is `None`.
#[derive(Debug, Clone)]
pub struct ClassifierDownload {
    pub url: Option<String>,
    pub path: Option<String>,
    pub sha1: Option<String>,
}

#[derive(Debug, Clone)]
pub struct LibraryDownloads {
    pub artifact: Option<LibDownloadArtifact>,
    /// The `classifiers` object, entry by entry.
    pub classifiers: Option<Vec<(String, ClassifierDownload)>>,
}

/// One entry of a `natives` object: the OS name and its classifier (`None`
/// when the value is not a string).
#[derive(Debug, Clone)]
pub struct NativeEntry {
    pub os: String,
    pub classifier: Option<String>,
}

/// A library of a version JSON.
#[derive(Debug, Clone)]
pub struct LibraryEntry {
    pub name: String,
    pub downloads: Option<LibraryDownloads>,
    pub rules: Option<Vec<LibraryRule>>,
    /// The `natives` object, entry by entry (`None` when absent or not an object).
    pub natives: Option<Vec<NativeEntry>>,
}

pub open spec fn rule_matches(rule: LibraryRule, os: HostOs) -> bool {
    match rule.os {
        None => true,
        Some(o) => match o.name {
            None => true,
            Some(n) => n@ == os_name(os),
        },
    }
}

/// The verdict after the first `n` rules: each rule that applies to the OS
/// sets it; before any does, the library is not allowed.
pub open spec fn rules_verdict(rules: Seq<LibraryRule>, os: HostOs, n: int) -> bool
    decreases n,
{
    if n <= 0 {
        false
    } else if rule_matches(rules[n - 1], os) {
        rules[n - 1].action == RuleAction::Allow
    } else {
        rules_verdict(rules, os, n - 1)
    }
}

pub open spec fn library_allowed(lib: LibraryEntry, os: HostOs) -> bool {
    match lib.rules {
        None => true,
        Some(r) => rules_verdict(r@, os, r@.len() as int),
    }
}

/// The classifier the `natives` object names for an OS, if it names one.
pub open spec fn native_lookup(natives: Seq<NativeEntry>, os: Seq<char>, i: int) -> Option<Seq<char>>
    decreases natives.len() - i,
{
    if i < 0 || i >= natives.len() {
        None
    } else if natives[i].os@ == os {
        match natives[i].classifier {
            Some(c) => Some(c@),
            None => None,
        }
    } else {
        native_lookup(natives, os, i + 1)
    }
}

/// The native classifier of a library on an OS, with `${arch}` filled in.
pub open spec fn native_classifier_of(lib: LibraryEntry, os: HostOs, arch_bits: Seq<char>) -> Option<Seq<char>> {
    match lib.natives {
        None => None,
        Some(n) => match native_lookup(n@, os_name(os), 0) {
            Some(c) => Some(crate::text::spec_replace_all(c, "${arch}"@, arch_bits)),
            None => None,
        },
    }
}

/// `64` on 64-bit x86, `32` elsewhere.
pub open spec fn arch_bits(x86_64: bool) -> Seq<char> {
    if x86_64 {
        "64"@
    } else {
        "32"@
    }
}

impl LibraryEntry {
    /// Whether the library is used on `os`: with no rules always; otherwise
    /// the last rule that applies to the OS decides, and none applying means no.
    pub fn is_allowed_for_current_os(&self, os: HostOs) -> (b: bool)
        ensures
            b == library_allowed(*self, os),
    {
        let rules = match &self.rules {
            Some(r) => r,
            None => return true,
        };
        let current = crate::platform::current_os_name(os);
        let mut allowed = false;
        let mut i: usize = 0;
        while i < rules.len()
            invariant
                i <= rules.len(),
                current@ == os_name(os),
                self.rules == Some(*rules),
                allowed == rules_verdict(rules@, os, i as int),
            decreases rules.len() - i,
        {
            let rule = &rules[i];
            let applies = match &rule.os {
                None => true,
                Some(o) => match &o.name {
                    None => true,
                    Some(n) => str_eq(n.as_str(), current),
                },
            };
            if applies {
                allowed = match rule.action {
                    RuleAction::Allow => true,
                    RuleAction::Disallow => false,
                };
            }
            i += 1;
        }
        allowed
    }

    /// The classifier of the library's natives for `os`, with `${arch}`
    /// replaced by `64` (on x86-64) or `32`.
    pub fn native_classifier_for_current_os(&self, os: HostOs, x86_64: bool) -> (r: Option<String>)
        ensures
            match r {
                Some(c) => native_classifier_of(*self, os, arch_bits(x86_64)) == Some(c@),
                None => native_classifier_of(*self, os, arch_bits(x86_64)) is None,
            },
    {
        let natives = match &self.natives {
            Some(n) => n,
            None => return None,
        };
        let current = crate::platform::current_os_name(os);
        let mut i: usize = 0;
        while i < natives.len()
            invariant
                i <= natives.len(),
                current@ == os_name(os),
                self.natives == Some(*natives),
                native_lookup(natives@, os_name(os), 0) == native_lookup(
                    natives@,
                    os_name(os),
                    i as int,
                ),
            decreases natives.len() - i,
        {
            if str_eq(natives[i].os.as_str(), current) {
                return match &natives[i].classifier {
                    Some(c) => {
                        let bits = if x86_64 {
                            "64"
                        } else {
                            "32"
                        };
                        proof {
                            reveal_strlit("${arch}");
                            assert(native_lookup(natives@, os_name(os), i as int) == Some(c@));
                            assert(bits@ == arch_bits(x86_64));
                        }
                        Some(crate::text::str_replace(c.as_str(), "${arch}", bits))
                    },
                    None => None,
                };
            }
            i += 1;
        }
        None
    }
}

/// A rule of a conditional argument, as far as it can be read: its action
/// and the OS name it names, when they are strings.
#[derive(Debug, Clone)]
pub struct ArgumentRule {
    pub action: Option<String>,
    pub os_name: Option<String>,
}

/// The `value` of a conditional argument.
#[derive(Debug, Clone)]
pub enum ArgumentValue {
    /// A single string.
    Single(String),
    /// An array; only its string items are kept.
    Many(Vec<String>),
    /// Missing, or of another kind.
    Absent,
}

/// An entry of an `arguments.game` or `arguments.jvm` list.
#[derive(Debug, Clone)]
pub enum ArgumentEntry {
    /// A plain string argument.
    Plain(String),
    /// An object with optional `rules` (when they form an array) and a `value`.
    Conditional { rules: Option<Vec<ArgumentRule>>, value: ArgumentValue },
    /// Anything else.
    Ignored,
}

pub open spec fn arg_rule_matches(rule: ArgumentRule, os: HostOs) -> bool {
    match rule.os_name {
        None => true,
        Some(n) => n@ == os_name(os),
    }
}

/// A rule without a readable action disallows.
pub open spec fn arg_rules_verdict(rules: Seq<ArgumentRule>, os: HostOs, n: int) -> bool
    decreases n,
{
    if n <= 0 {
        false
    } else if arg_rule_matches(rules[n - 1], os) {
        match rules[n - 1].action {
            Some(a) => a@ == "allow"@,
            None => false,
        }
    } else {
        arg_rules_verdict(rules, os, n - 1)
    }
}

/// Whether the rules of a conditional argument let it in on `os`.
pub fn rules_allow_current_os(rules: &Vec<ArgumentRule>, os: HostOs) -> (b: bool)
    ensures
        b == arg_rules_verdict(rules@, os, rules@.len() as int),
{
    let current = crate::platform::current_os_name(os);
    let mut allowed = false;
    let mut i: usize = 0;
    while i < rules.len()
        invariant
            i <= rules.len(),
            current@ == os_name(os),
            allowed == arg_rules_verdict(rules@, os, i as int),
        decreases rules.len() - i,
    {
        let rule = &rules[i];
        let applies = match &rule.os_name {
            None => true,
            Some(n) => str_eq(n.as_str(), current),
        };
        if applies {
            allowed = match &rule.action {
                Some(a) => str_eq(a.as_str(), "allow"),
                None => false,
            };
        }
        i += 1;
    }
    allowed
}

/// The arguments an entry stands for on `os`.
pub open spec fn argument_values_of(entry: ArgumentEntry, os: HostOs) -> Seq<Seq<char>> {
    match entry {
        ArgumentEntry::Plain(s) => seq![s@],
        ArgumentEntry::Ignored => Seq::empty(),
        ArgumentEntry::Conditional { rules, value } => {
            let allowed = match rules {
                Some(r) => arg_rules_verdict(r@, os, r@.len() as int),
                None => true,
            };
            if !allowed {
                Seq::empty()
            } else {
                match value {
                    ArgumentValue::Single(s) => seq![s@],
                    ArgumentValue::Many(v) => string_views(v@),
                    ArgumentValue::Absent => Seq::empty(),
                }
            }
        },
    }
}

fn copy_strings(v: &Vec<String>) -> (r: Vec<String>)
    ensures
        string_views(r@) == string_views(v@),
{
    let mut out: Vec<String> = Vec::new();
    let mut i: usize = 0;
    while i < v.len()
        invariant
            i <= v.len(),
            string_views(out@) == string_views(v@).take(i as int),
        decreases v.len() - i,
    {
        let ghost before = string_views(out@);
        out.push(v[i].clone());
        assert(string_views(out@) =~= before.push(v@[i as int]@));
        assert(string_views(v@).take(i + 1) =~= string_views(v@).take(i as int).push(v@[i as int]@));
        i += 1;
    }
    assert(string_views(v@).take(v.len() as int) =~= string_views(v@));
    out
}

/// The arguments an entry of an argument list stands for on `os`.
pub fn extract_argument_values(entry: &ArgumentEntry, os: HostOs) -> (r: Vec<String>)
    ensures
        string_views(r@) == argument_values_of(*entry, os),
{
    match entry {
        ArgumentEntry::Plain(s) => {
            let mut r: Vec<String> = Vec::new();
            r.push(s.clone());
            assert(string_views(r@) =~= seq![s@]);
            r
        },
        ArgumentEntry::Ignored => {
            let r: Vec<String> = Vec::new();
            assert(string_views(r@) =~= Seq::<Seq<char>>::empty());
            r
        },
        ArgumentEntry::Conditional { rules, value } => {
            let allowed = match rules {
                Some(r) => rules_allow_current_os(r, os),
                None => true,
            };
            if !allowed {
                let r: Vec<String> = Vec::new();
                assert(string_views(r@) =~= Seq::<Seq<char>>::empty());
                return r;
            }
            match value {
                ArgumentValue::Single(s) => {
                    let mut r: Vec<String> = Vec::new();
                    r.push(s.clone());
                    assert(string_views(r@) =~= seq![s@]);
                    r
                },
                ArgumentValue::Many(v) => copy_strings(v),
                ArgumentValue::Absent => {
                    let r: Vec<String> = Vec::new();
                    assert(string_views(r@) =~= Seq::<Seq<char>>::empty());
                    r
                },
            }
        },
    }
}

/// The arguments of a whole list, in order.
pub open spec fn argument_list_values(entries: Seq<ArgumentEntry>, os: HostOs) -> Seq<Seq<char>>
    decreases entries.len(),
{
    if entries.len() == 0 {
        Seq::empty()
    } else {
        argument_list_values(entries.drop_last(), os) + argument_values_of(entries.last(), os)
    }
}

fn list_values(entries: &Vec<ArgumentEntry>, os: HostOs) -> (r: Vec<String>)
    ensures
        string_views(r@) == argument_list_values(entries@, os),
{
    let mut out: Vec<String> = Vec::new();
    let mut i: usize = 0;
    while i < entries.len()
        invariant
            i <= entries.len(),
            string_views(out@) == argument_list_values(entries@.take(i as int), os),
        decreases entries.len() - i,
    {
        assert(entries@.take(i + 1).drop_last() =~= entries@.take(i as int));
        let vals = extract_argument_values(&entries[i], os);
        let ghost start = string_views(out@);
        let mut k: usize = 0;
        while k < vals.len()
            invariant
                k <= vals.len(),
                string_views(out@) == start + string_views(vals@).take(k as int),
            decreases vals.len() - k,
        {
            let ghost before = string_views(out@);
            out.push(vals[k].clone());
            assert(string_views(out@) =~= before.push(vals@[k as int]@));
            assert(string_views(vals@).take(k + 1) =~= string_views(vals@).take(k as int).push(
                vals@[k as int]@,
            ));
            k += 1;
        }
        assert(string_views(vals@).take(vals.len() as int) =~= string_views(vals@));
        i += 1;
    }
    assert(entries@.take(entries.len() as int) =~= entries@);
    out
}

/// The `arguments` object of a version JSON.
#[derive(Debug, Clone)]
pub struct Arguments {
    pub game: Vec<ArgumentEntry>,
    pub jvm: Vec<ArgumentEntry>,
}

#[derive(Debug, Clone)]
pub struct JavaVersionInfo {
    pub major_version: u32,
}

#[derive(Debug, Clone)]
pub struct DownloadArtifact {
    pub sha1: String,
    pub size: u64,
    pub url: String,
}

#[derive(Debug, Clone)]
pub struct VersionDownloads {
    pub client: Option<DownloadArtifact>,
    pub server: Option<DownloadArtifact>,
}

#[derive(Debug, Clone)]
pub struct AssetIndexInfo {
    pub id: String,
    pub url: String,
    pub sha1: Option<String>,
    pub total_size: Option<u64>,
}

/// A Mojang version JSON.
#[derive(Debug, Clone)]
pub struct VersionJson {
    pub id: Option<String>,
    pub main_class: String,
    pub inherits_from: Option<String>,
    pub libraries: Vec<LibraryEntry>,
    pub downloads: Option<VersionDownloads>,
    pub asset_index: Option<AssetIndexInfo>,
    pub arguments: Option<Arguments>,
    /// The space-separated argument string of versions before 1.13.
    pub minecraft_arguments: Option<String>,
    pub java_version: Option<JavaVersionInfo>,
}

/// The whitespace-separated words of a text (`split_whitespace`).
pub open spec fn words_of(s: Seq<char>) -> Seq<Seq<char>>
    decreases s.len(),
{
    if s.len() == 0 {
        Seq::empty()
    } else {
        let prev = words_of(s.drop_last());
        if crate::text::is_ws(s.last()) {
            prev
        } else if s.len() >= 2 && !crate::text::is_ws(s[s.len() - 2]) {
            prev.update(prev.len() - 1, prev.last().push(s.last()))
        } else {
            prev.push(seq![s.last()])
        }
    }
}

proof fn lemma_words_nonempty(s: Seq<char>)
    ensures
        s.len() > 0 && !crate::text::is_ws(s.last()) ==> words_of(s).len() > 0,
    decreases s.len(),
{
    if s.len() > 0 {
        lemma_words_nonempty(s.drop_last());
        let d = s.drop_last();
        if d.len() > 0 {
            assert(d.last() == s[s.len() - 2]);
        }
    }
}

/// Splits a text at whitespace, dropping empty pieces.
pub fn split_whitespace(s: &str) -> (r: Vec<String>)
    ensures
        string_views(r@) == words_of(s@),
{
    let v = crate::text::chars_of(s);
    let mut words: Vec<Vec<char>> = Vec::new();
    let mut i: usize = 0;
    while i < v.len()
        invariant
            i <= v.len(),
            v@ == s@,
            crate::text::views(words@) == words_of(v@.take(i as int)),
        decreases v.len() - i,
    {
        let c = v[i];
        let ghost t = v@.take(i + 1);
        assert(t.drop_last() =~= v@.take(i as int));
        assert(t.last() == c);
        proof {
            lemma_words_nonempty(v@.take(i as int));
            if i >= 1 {
                assert(t[t.len() - 2] == v@[i - 1]);
                assert(v@.take(i as int).last() == v@[i - 1]);
            }
        }
        if crate::text::is_ws_exec(c) {
        } else if i >= 1 && !crate::text::is_ws_exec(v[i - 1]) {
            let ghost before = crate::text::views(words@);
            let last = words.len() - 1;
            let mut w = words[last].clone();
            w.push(c);
            words.set(last, w);
            assert(crate::text::views(words@) =~= before.update(
                before.len() - 1,
                before.last().push(c),
            ));
        } else {
            let ghost before = crate::text::views(words@);
            let mut w: Vec<char> = Vec::new();
            w.push(c);
            words.push(w);
            assert(crate::text::views(words@) =~= before.push(seq![c]));
        }
        i += 1;
    }
    assert(v@.take(v.len() as int) =~= v@);
    let mut out: Vec<String> = Vec::new();
    let mut k: usize = 0;
    while k < words.len()
        invariant
            k <= words.len(),
            out@.len() == k,
            forall|j: int| 0 <= j < k ==> #[trigger] out@[j]@ == words@[j]@,
        decreases words.len() - k,
    {
        out.push(crate::text::string_from_chars(words[k].as_slice()));
        k += 1;
    }
    assert(string_views(out@) =~= crate::text::views(words@));
    out
}

pub open spec fn simple_game_args_of(v: VersionJson, os: HostOs) -> Seq<Seq<char>> {
    match v.arguments {
        Some(a) => argument_list_values(a.game@, os),
        None => match v.minecraft_arguments {
            Some(s) => words_of(s@),
            None => Seq::empty(),
        },
    }
}

pub open spec fn simple_jvm_args_of(v: VersionJson, os: HostOs) -> Seq<Seq<char>> {
    match v.arguments {
        Some(a) => argument_list_values(a.jvm@, os),
        None => Seq::empty(),
    }
}

impl VersionJson {
    /// The Java major version the JSON asks for; 17 when it names none.
    pub fn required_java_major(&self) -> (r: u32)
        ensures
            r == match self.java_version {
                Some(j) => j.major_version,
                None => 17,
            },
    {
        match &self.java_version {
            Some(j) => j.major_version,
            None => 17,
        }
    }

    /// The game arguments that apply on `os`; before 1.13, the words of
    /// `minecraftArguments`.
    pub fn simple_game_args(&self, os: HostOs) -> (r: Vec<String>)
        ensures
            string_views(r@) == simple_game_args_of(*self, os),
    {
        match &self.arguments {
            Some(a) => list_values(&a.game, os),
            None => match &self.minecraft_arguments {
                Some(s) => split_whitespace(s.as_str()),
                None => Vec::new(),
            },
        }
    }

    /// The JVM arguments that apply on `os`.
    pub fn simple_jvm_args(&self, os: HostOs) -> (r: Vec<String>)
        ensures
            string_views(r@) == simple_jvm_args_of(*self, os),
    {
        match &self.arguments {
            Some(a) => list_values(&a.jvm, os),
            None => Vec::new(),
        }
    }
}

/// A file to fetch: from where, to where, and its SHA-1.
#[derive(Debug, Clone)]
pub struct PlannedDownload {
    pub url: String,
    pub dest: String,
    pub sha1: String,
}

pub open spec fn planned_view(d: PlannedDownload) -> (Seq<char>, Seq<char>, Seq<char>) {
    (d.url@, d.dest@, d.sha1@)
}

/// What one allowed library needs: its downloads (those whose file is
/// missing are fetched) and its classpath entry.
#[derive(Debug, Clone)]
pub struct LibraryStep {
    pub downloads: Vec<PlannedDownload>,
    pub classpath_entry: String,
}

/// The classifier download named `key`, searching from position `i`.
pub open spec fn classifier_lookup(cs: Seq<(String, ClassifierDownload)>, key: Seq<char>, i: int) -> Option<ClassifierDownload>
    decreases cs.len() - i,
{
    if i < 0 || i >= cs.len() {
        None
    } else if cs[i].0@ == key {
        Some(cs[i].1)
    } else {
        classifier_lookup(cs, key, i + 1)
    }
}

/// The native download of a library, if its natives name a classifier that
/// has a url, a path and a SHA-1.
pub open spec fn native_download_of(lib: LibraryEntry, libs_dir: Seq<char>, os: HostOs, x86_64: bool) -> Option<(Seq<char>, Seq<char>, Seq<char>)> {
    match lib.downloads {
        None => None,
        Some(d) => match native_classifier_of(lib, os, arch_bits(x86_64)) {
            None => None,
            Some(c) => match d.classifiers {
                None => None,
                Some(cs) => match classifier_lookup(cs@, c, 0) {
                    Some(info) => match (info.url, info.path, info.sha1) {
                        (Some(u), Some(p), Some(h)) => Some(
                            (u@, crate::platform::path_join_result(libs_dir, p@), h@),
                        ),
                        _ => None,
                    },
                    None => None,
                },
            },
        },
    }
}

/// The downloads of an allowed library: its artifact, then its natives.
pub open spec fn library_downloads_of(lib: LibraryEntry, libs_dir: Seq<char>, os: HostOs, x86_64: bool) -> Seq<(Seq<char>, Seq<char>, Seq<char>)> {
    let main = match lib.downloads {
        Some(d) => match d.artifact {
            Some(a) => seq![(a.url@, crate::platform::path_join_result(libs_dir, a.path@), a.sha1@)],
            None => Seq::empty(),
        },
        None => Seq::empty(),
    };
    main + match native_download_of(lib, libs_dir, os, x86_64) {
        Some(n) => seq![n],
        None => Seq::empty(),
    }
}

/// A library goes on the classpath by its artifact path, or by its name.
pub open spec fn classpath_entry_of(lib: LibraryEntry) -> Seq<char> {
    match lib.downloads {
        Some(d) => match d.artifact {
            Some(a) => a.path@,
            None => lib.name@,
        },
        None => lib.name@,
    }
}

pub open spec fn allowed_libraries(libs: Seq<LibraryEntry>, os: HostOs) -> Seq<LibraryEntry>
    decreases libs.len(),
{
    if libs.len() == 0 {
        Seq::empty()
    } else {
        let rest = allowed_libraries(libs.drop_last(), os);
        if library_allowed(libs.last(), os) {
            rest.push(libs.last())
        } else {
            rest
        }
    }
}

fn classifier_download(lib: &LibraryEntry, libs_dir: &str, os: HostOs, x86_64: bool) -> (r: Option<PlannedDownload>)
    ensures
        match r {
            Some(d) => native_download_of(*lib, libs_dir@, os, x86_64) == Some(planned_view(d)),
            None => native_download_of(*lib, libs_dir@, os, x86_64) is None,
        },
{
    let d = match &lib.downloads {
        Some(d) => d,
        None => return None,
    };
    let c = match lib.native_classifier_for_current_os(os, x86_64) {
        Some(c) => c,
        None => return None,
    };
    let cs = match &d.classifiers {
        Some(cs) => cs,
        None => return None,
    };
    let mut i: usize = 0;
    while i < cs.len()
        invariant
            i <= cs.len(),
            lib.downloads == Some(*d),
            d.classifiers == Some(*cs),
            native_classifier_of(*lib, os, arch_bits(x86_64)) == Some(c@),
            classifier_lookup(cs@, c@, 0) == classifier_lookup(cs@, c@, i as int),
        decreases cs.len() - i,
    {
        if str_eq(cs[i].0.as_str(), c.as_str()) {
            let info = &cs[i].1;
            return match (&info.url, &info.path, &info.sha1) {
                (Some(u), Some(p), Some(h)) => Some(
                    PlannedDownload {
                        url: u.clone(),
                        dest: crate::platform::path_join(libs_dir, p.as_str()),
                        sha1: h.clone(),
                    },
                ),
                _ => None,
            };
        }
        i += 1;
    }
    None
}

impl LibraryEntry {
    /// What the library needs when it is allowed: see `library_downloads_of`
    /// and `classpath_entry_of`.
    pub fn plan(&self, libs_dir: &str, os: HostOs, x86_64: bool) -> (r: LibraryStep)
        ensures
            r.downloads@.map_values(|d: PlannedDownload| planned_view(d)) == library_downloads_of(
                *self,
                libs_dir@,
                os,
                x86_64,
            ),
            r.classpath_entry@ == classpath_entry_of(*self),
    {
        let mut downloads: Vec<PlannedDownload> = Vec::new();
        let mut entry = self.name.clone();
        match &self.downloads {
            Some(d) => match &d.artifact {
                Some(a) => {
                    downloads.push(
                        PlannedDownload {
                            url: a.url.clone(),
                            dest: crate::platform::path_join(libs_dir, a.path.as_str()),
                            sha1: a.sha1.clone(),
                        },
                    );
                    entry = a.path.clone();
                },
                None => {},
            },
            None => {},
        }
        let ghost main = downloads@.map_values(|d: PlannedDownload| planned_view(d));
        match classifier_download(self, libs_dir, os, x86_64) {
            Some(n) => downloads.push(n),
            None => {},
        }
        assert(downloads@.map_values(|d: PlannedDownload| planned_view(d)) =~= library_downloads_of(
            *self,
            libs_dir@,
            os,
            x86_64,
        ));
        LibraryStep { downloads, classpath_entry: entry }
    }
}

impl VersionJson {
    /// The libraries allowed on `os`, in order, each with what it needs.
    pub fn plan_libraries(&self, libs_dir: &str, os: HostOs, x86_64: bool) -> (r: Vec<LibraryStep>)
        ensures
            r@.len() == allowed_libraries(self.libraries@, os).len(),
            forall|i: int|
                0 <= i < r@.len() ==> {
                    let lib = allowed_libraries(self.libraries@, os)[i];
                    &&& (#[trigger] r@[i]).classpath_entry@ == classpath_entry_of(lib)
                    &&& r@[i].downloads@.map_values(|d: PlannedDownload| planned_view(d))
                        == library_downloads_of(lib, libs_dir@, os, x86_64)
                },
    {
        let mut out: Vec<LibraryStep> = Vec::new();
        let mut i: usize = 0;
        while i < self.libraries.len()
            invariant
                i <= self.libraries.len(),
                out@.len() == allowed_libraries(self.libraries@.take(i as int), os).len(),
                forall|j: int|
                    0 <= j < out@.len() ==> {
                        let lib = allowed_libraries(self.libraries@.take(i as int), os)[j];
                        &&& (#[trigger] out@[j]).classpath_entry@ == classpath_entry_of(lib)
                        &&& out@[j].downloads@.map_values(|d: PlannedDownload| planned_view(d))
                            == library_downloads_of(lib, libs_dir@, os, x86_64)
                    },
            decreases self.libraries.len() - i,
        {
            let ghost prev = allowed_libraries(self.libraries@.take(i as int), os);
            assert(self.libraries@.take(i + 1).drop_last() =~= self.libraries@.take(i as int));
            let lib = &self.libraries[i];
            if lib.is_allowed_for_current_os(os) {
                let step = lib.plan(libs_dir, os, x86_64);
                out.push(step);
                assert(allowed_libraries(self.libraries@.take(i + 1), os) == prev.push(*lib));
            }
            i += 1;
        }
        assert(self.libraries@.take(self.libraries.len() as int) =~= self.libraries@);
        out
    }

    /// Where the client jar goes, and from where, when the JSON names one.
    pub fn client_download(&self, instance_dir: &str) -> (r: Option<PlannedDownload>)
        ensures
            match self.downloads {
                Some(d) => match d.client {
                    Some(c) => r is Some && planned_view(r->0) == (
                        c.url@,
                        crate::platform::path_join_result(instance_dir@, "client.jar"@),
                        c.sha1@,
                    ),
                    None => r is None,
                },
                None => r is None,
            },
    {
        match &self.downloads {
            Some(d) => match &d.client {
                Some(c) => Some(
                    PlannedDownload {
                        url: c.url.clone(),
                        dest: crate::platform::path_join(instance_dir, "client.jar"),
                        sha1: c.sha1.clone(),
                    },
                ),
                None => None,
            },
            None => None,
        }
    }

    /// `<instance dir>/<version id>.json`, where the raw JSON is saved.
    pub fn saved_json_path(instance_dir: &str, version_id: &str) -> (r: String)
        ensures
            r@ == crate::platform::path_join_result(instance_dir@, version_id@ + ".json"@),
    {
        let mut name = String::from_str(version_id);
        name.append(".json");
        crate::platform::path_join(instance_dir, name.as_str())
    }
}

/// One version of the Mojang version manifest.
#[derive(Debug, Clone)]
pub struct VersionEntry {
    pub id: String,
    pub version_type: String,
    pub release_time: String,
    pub url: String,
    pub sha1: Option<String>,
}

/// The Mojang version manifest.
#[derive(Debug, Clone)]
pub struct VersionManifest {
    pub versions: Vec<VersionEntry>,
}

/// Position of the first version with `id` from `i` on, or -1.
pub open spec fn version_pos(vs: Seq<VersionEntry>, id: Seq<char>, i: int) -> int
    decreases vs.len() - i,
{
    if i < 0 || i >= vs.len() {
        -1
    } else if vs[i].id@ == id {
        i
    } else {
        version_pos(vs, id, i + 1)
    }
}

pub open spec fn releases_of(vs: Seq<VersionEntry>) -> Seq<VersionEntry>
    decreases vs.len(),
{
    if vs.len() == 0 {
        Seq::empty()
    } else {
        let rest = releases_of(vs.drop_last());
        if vs.last().version_type@ == "release"@ {
            rest.push(vs.last())
        } else {
            rest
        }
    }
}

impl VersionManifest {
    /// The first version with the given id.
    pub fn find_version(&self, id: &str) -> (r: Option<&VersionEntry>)
        ensures
            version_pos(self.versions@, id@, 0) == -1 ==> r is None,
            version_pos(self.versions@, id@, 0) != -1 ==> r == Some(
                &self.versions@[version_pos(self.versions@, id@, 0)],
            ),
    {
        let mut i: usize = 0;
        while i < self.versions.len()
            invariant
                i <= self.versions.len(),
                version_pos(self.versions@, id@, 0) == version_pos(self.versions@, id@, i as int),
            decreases self.versions.len() - i,
        {
            if str_eq(self.versions[i].id.as_str(), id) {
                return Some(&self.versions[i]);
            }
            i += 1;
        }
        None
    }

    /// The release versions, in manifest order.
    pub fn releases(&self) -> (r: Vec<&VersionEntry>)
        ensures
            r@.len() == releases_of(self.versions@).len(),
            forall|i: int| 0 <= i < r@.len() ==> *(#[trigger] r@[i]) == releases_of(self.versions@)[i],
    {
        let mut out: Vec<&VersionEntry> = Vec::new();
        let mut i: usize = 0;
        while i < self.versions.len()
            invariant
                i <= self.versions.len(),
                out@.len() == releases_of(self.versions@.take(i as int)).len(),
                forall|j: int|
                    0 <= j < out@.len() ==> *(#[trigger] out@[j]) == releases_of(
                        self.versions@.take(i as int),
                    )[j],
            decreases self.versions.len() - i,
        {
            assert(self.versions@.take(i + 1).drop_last() =~= self.versions@.take(i as int));
            if str_eq(self.versions[i].version_type.as_str(), "release") {
                out.push(&self.versions[i]);
            }
            i += 1;
        }
        assert(self.versions@.take(self.versions.len() as int) =~= self.versions@);
        out
    }
}

} // verus!
