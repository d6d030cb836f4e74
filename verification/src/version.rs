//! What the program tells about its own build.
use vstd::prelude::*;
use vstd::string::StringExecFns;

verus! {

/// What was known when the program was built. An empty text stands for nothing.
#[derive(Debug)]
pub struct BuildInfo {
    pub app_name: String,
    pub package_version: String,
    pub release_version: String,
    pub repository: String,
    pub git_sha: Option<String>,
    pub commit_range: Option<String>,
    pub build_timestamp: Option<String>,
}

/// What a `BuildInfo` holds.
pub struct BuildView {
    pub app_name: Seq<char>,
    pub package_version: Seq<char>,
    pub release_version: Seq<char>,
    pub repository: Seq<char>,
    pub git_sha: Option<Seq<char>>,
    pub commit_range: Option<Seq<char>>,
    pub build_timestamp: Option<Seq<char>>,
}

/// What a text that may be missing holds.
pub open spec fn text_view(text: Option<String>) -> Option<Seq<char>> {
    match text {
        Some(t) => Some(t@),
        None => None,
    }
}

impl View for BuildInfo {
    type V = BuildView;

    open spec fn view(&self) -> BuildView {
        BuildView {
            app_name: self.app_name@,
            package_version: self.package_version@,
            release_version: self.release_version@,
            repository: self.repository@,
            git_sha: text_view(self.git_sha),
            commit_range: text_view(self.commit_range),
            build_timestamp: text_view(self.build_timestamp),
        }
    }
}

/// A text where there is one that is not empty.
pub open spec fn known(text: Option<Seq<char>>) -> Option<Seq<char>> {
    match text {
        Some(t) if t.len() > 0 => Some(t),
        _ => None,
    }
}

/// The line for a text that may be missing: none, or one.
pub open spec fn line_for(label: Seq<char>, text: Option<Seq<char>>) -> Seq<Seq<char>> {
    match known(text) {
        Some(t) => seq![label + t],
        None => seq![],
    }
}

/// All lines about a build.
pub open spec fn version_lines(b: BuildView) -> Seq<Seq<char>> {
    seq![
        b.app_name + " "@ + b.release_version,
        "Package version: "@ + b.package_version,
        "Repository: "@ + b.repository,
    ] + line_for("Commit: "@, b.git_sha) + line_for("Commit range: "@, b.commit_range) + line_for(
        "Built at: "@,
        b.build_timestamp,
    )
}

/// The version of a build that is no release: the version of the package, marked, with the commit
/// where it is known.
pub open spec fn development_version(package_version: Seq<char>, sha: Option<Seq<char>>) -> Seq<
    char,
> {
    match sha {
        Some(s) => package_version + "-dev+"@ + s,
        None => package_version + "-dev"@,
    }
}

fn known_text(text: &Option<String>) -> (r: Option<&str>)
    ensures
        match r {
            Some(t) => known(text_view(*text)) == Some(t@),
            None => known(text_view(*text)) is None,
        },
{
    match text {
        Some(t) => if t.as_str().is_empty() {
            None
        } else {
            Some(t.as_str())
        },
        None => None,
    }
}

impl BuildInfo {
    /// The commit that was built.
    pub fn git_sha(&self) -> (r: Option<&str>)
        ensures
            match r {
                Some(t) => known(self@.git_sha) == Some(t@),
                None => known(self@.git_sha) is None,
            },
    {
        known_text(&self.git_sha)
    }

    /// The commits since the release before.
    pub fn commit_range(&self) -> (r: Option<&str>)
        ensures
            match r {
                Some(t) => known(self@.commit_range) == Some(t@),
                None => known(self@.commit_range) is None,
            },
    {
        known_text(&self.commit_range)
    }

    /// When the program was built.
    pub fn build_timestamp(&self) -> (r: Option<&str>)
        ensures
            match r {
                Some(t) => known(self@.build_timestamp) == Some(t@),
                None => known(self@.build_timestamp) is None,
            },
    {
        known_text(&self.build_timestamp)
    }
}

fn add_line(lines: &mut Vec<String>, label: &str, text: Option<&str>)
    ensures
        crate::text::texts(final(lines)@) == crate::text::texts(old(lines)@) + (match text {
            Some(t) => seq![label@ + t@],
            None => seq![],
        }),
{
    let ghost before = lines@;
    match text {
        Some(t) => {
            let line = label.to_owned().concat(t);
            lines.push(line);
            assert(crate::text::texts(lines@) =~= crate::text::texts(before) + seq![line@]);
        },
        None => {
            assert(crate::text::texts(lines@) =~= crate::text::texts(before) + seq![]);
        },
    }
}

/// Writes all lines about a build.
pub fn print(build: &BuildInfo) -> (r: Vec<String>)
    ensures
        crate::text::texts(r@) == version_lines(build@),
{
    let mut r: Vec<String> = Vec::new();
    r.push(build.app_name.clone().concat(" ").concat(build.release_version.as_str()));
    r.push("Package version: ".to_owned().concat(build.package_version.as_str()));
    r.push("Repository: ".to_owned().concat(build.repository.as_str()));
    assert(crate::text::texts(r@) =~= seq![
        build@.app_name + " "@ + build@.release_version,
        "Package version: "@ + build@.package_version,
        "Repository: "@ + build@.repository,
    ]);
    add_line(&mut r, "Commit: ", build.git_sha());
    add_line(&mut r, "Commit range: ", build.commit_range());
    add_line(&mut r, "Built at: ", build.build_timestamp());
    r
}

/// The version that a build carries: the one that was given to it, else that of a development
/// build.
pub fn release_version(given: Option<&str>, package_version: &str, sha: Option<&str>) -> (r: String)
    ensures
        r@ == (match given {
            Some(version) => version@,
            None => development_version(
                package_version@,
                match sha {
                    Some(s) => Some(s@),
                    None => None,
                },
            ),
        }),
{
    match given {
        Some(version) => version.to_owned(),
        None => match sha {
            Some(s) => package_version.to_owned().concat("-dev+").concat(s),
            None => package_version.to_owned().concat("-dev"),
        },
    }
}

/// The program tells its name and release, the version of its package and its repository. The
/// commit, the range of commits and the time of the build follow, each only where it is known and
/// not empty.
pub proof fn version_tells_what_is_known(b: BuildView)
    ensures
        ({
            let some = |label: Seq<char>, text: Option<Seq<char>>|
                if text is Some && text->0.len() > 0 {
                    seq![label + text->0]
                } else {
                    Seq::<Seq<char>>::empty()
                };
            version_lines(b) == seq![b.app_name + " "@ + b.release_version] + seq![
                "Package version: "@ + b.package_version,
            ] + seq!["Repository: "@ + b.repository] + some("Commit: "@, b.git_sha) + some(
                "Commit range: "@,
                b.commit_range,
            ) + some("Built at: "@, b.build_timestamp)
        }),
        known(Some(Seq::<char>::empty())) is None,
        known(None) is None,
        b.git_sha matches Some(t) ==> t.len() > 0 ==> known(b.git_sha) == Some(t),
{
    let some = |label: Seq<char>, text: Option<Seq<char>>|
        if text is Some && text->0.len() > 0 {
            seq![label + text->0]
        } else {
            Seq::<Seq<char>>::empty()
        };
    assert(line_for("Commit: "@, b.git_sha) =~= some("Commit: "@, b.git_sha));
    assert(line_for("Commit range: "@, b.commit_range) =~= some("Commit range: "@, b.commit_range));
    assert(line_for("Built at: "@, b.build_timestamp) =~= some("Built at: "@, b.build_timestamp));
    assert(seq![
        b.app_name + " "@ + b.release_version,
        "Package version: "@ + b.package_version,
        "Repository: "@ + b.repository,
    ] =~= seq![b.app_name + " "@ + b.release_version] + seq![
        "Package version: "@ + b.package_version,
    ] + seq!["Repository: "@ + b.repository]);
}

/// A build that is no release is marked as one of development, with its commit where that is known.
pub proof fn development_builds_are_marked(package_version: Seq<char>, sha: Seq<char>)
    ensures
        development_version(package_version, Some(sha)) == package_version + "-dev"@ + "+"@ + sha,
        development_version(package_version, None) == package_version + "-dev"@,
{
    reveal_strlit("-dev+");
    reveal_strlit("-dev");
    reveal_strlit("+");
    assert("-dev"@ + "+"@ =~= "-dev+"@);
    assert(package_version + "-dev"@ + "+"@ + sha =~= package_version + ("-dev"@ + "+"@) + sha);
}

} // verus!
