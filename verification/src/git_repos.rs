use vstd::prelude::*;

use crate::text::{lemma_split_on_append, lemma_split_on_join, lemma_split_on_push_sep,
    chars_from, chars_of, encode_spaces, has_prefix, pieces_view, spaces_encoded,
    split_chars, split_on, string_of, trim_end_all, trim_prefix_all, trim_start_all,
    trim_suffix_all,
};

verus! {

/// How many times the end of a clone is waited for, a second each.
pub const MAX_CLONE_RETRIES: u32 = 10;

/// A repository on a git forge: GitHub, GitLab or Sourcehut.
///
/// The user of a Sourcehut repository is held without the `~` that its URLs
/// put before it.
#[derive(Debug, Clone, PartialEq, Eq, Hash)]
pub enum GitSource {
    GitHub { user: String, repo: String, default_branch: String },
    GitLab { user: String, repo: String, default_branch: String },
    Sourcehut { user: String, repo: String, default_branch: String },
}

/// The strings as character sequences.
pub open spec fn strings_view(v: Seq<String>) -> Seq<Seq<char>> {
    v.map_values(|s: String| s@)
}

/// The user named in a forge URL: the piece after the host.
pub open spec fn url_user(url: Seq<char>) -> Seq<char> {
    split_on(url, '/')[3]
}

/// The repository named in a forge URL, without its `.git` endings.
pub open spec fn url_repo(url: Seq<char>) -> Seq<char> {
    trim_suffix_all(split_on(url, '/')[4], ".git"@)
}

/// The URL is one of a GitHub repository.
pub open spec fn is_github_url(url: Seq<char>) -> bool {
    "https://github.com/"@.is_prefix_of(url)
}

/// The URL is one of a GitLab repository.
pub open spec fn is_gitlab_url(url: Seq<char>) -> bool {
    "https://gitlab.com/"@.is_prefix_of(url)
}

/// The URL is one of a Sourcehut repository.
pub open spec fn is_sourcehut_url(url: Seq<char>) -> bool {
    "https://git.sr.ht/"@.is_prefix_of(url)
}

/// The URL is one of a repository on a known forge.
pub open spec fn is_forge_url(url: Seq<char>) -> bool {
    is_github_url(url) || is_gitlab_url(url) || is_sourcehut_url(url)
}

/// `s` without the `~` it starts with, if any.
pub open spec fn without_tilde(s: Seq<char>) -> Seq<char> {
    if s.len() > 0 && s[0] == '~' {
        s.drop_first()
    } else {
        s
    }
}

/// The URL has a piece for the user and one for the repository.
pub open spec fn has_repo_piece(url: Seq<char>) -> bool {
    split_on(url, '/').len() >= 5
}

/// A line of a `.gitmodules` file that gives a submodule's URL, and that URL.
pub open spec fn module_url(line: Seq<char>) -> Option<Seq<char>> {
    if "\turl"@.is_prefix_of(line) {
        Some(trim_prefix_all(line, "\turl = "@))
    } else {
        None
    }
}

/// A line without the carriage return that ends it, if any.
pub open spec fn without_cr(line: Seq<char>) -> Seq<char> {
    if line.len() > 0 && line.last() == '\r' {
        line.drop_last()
    } else {
        line
    }
}

/// The lines of a text (what `str::lines` gives): the pieces between line
/// feeds, each ended one without a carriage return before its line feed, and
/// no empty piece after a final line feed.
pub open spec fn lines_of(s: Seq<char>) -> Seq<Seq<char>> {
    let parts = split_on(s, '\n');
    let ended = parts.drop_last().map_values(|l: Seq<char>| without_cr(l));
    if parts.last().len() == 0 {
        ended
    } else {
        ended.push(parts.last())
    }
}

/// The submodule URLs of a `.gitmodules` text, in order.
pub open spec fn gitmodules_urls_of(text: Seq<char>) -> Seq<Seq<char>> {
    lines_of(text).filter_map(|l: Seq<char>| module_url(l))
}

/// The pieces of `https://` + `host` + `/`.
proof fn lemma_split_forge_prefix(host: Seq<char>)
    requires
        !host.contains('/'),
    ensures
        split_on("https:"@ + seq!['/', '/'] + host + seq!['/'], '/') == seq![
            "https:"@,
            Seq::<char>::empty(),
            host,
            Seq::<char>::empty(),
        ],
{
    reveal_strlit("https:");
    let e = Seq::<char>::empty();
    let a = "https:"@;
    assert(!a.contains('/'));
    lemma_split_on_append(e, a, '/');
    assert(e + a =~= a);
    assert(split_on(e, '/') =~= seq![e]);
    assert(split_on(a, '/') =~= seq![a]);
    lemma_split_on_push_sep(a, '/');
    assert(a.push('/') =~= a + seq!['/']);
    lemma_split_on_push_sep(a.push('/'), '/');
    let b = a.push('/').push('/');
    assert(b =~= a + seq!['/', '/']);
    assert(split_on(b, '/') =~= seq![a, e, e]);
    lemma_split_on_append(b, host, '/');
    assert(split_on(b + host, '/') =~= seq![a, e, host]);
    lemma_split_on_push_sep(b + host, '/');
    assert((b + host).push('/') =~= a + seq!['/', '/'] + host + seq!['/']);
}

/// The pieces of `prefix` + `user` + `/` + `repo`, where `prefix` splits into
/// the given four pieces, the last empty.
proof fn lemma_split_repo_url(prefix: Seq<char>, host: Seq<char>, user: Seq<char>, repo: Seq<char>)
    requires
        split_on(prefix, '/') == seq!["https:"@, Seq::<char>::empty(), host, Seq::<char>::empty()],
        !user.contains('/'),
        !repo.contains('/'),
    ensures
        split_on(prefix + user + "/"@ + repo, '/') == seq!["https:"@, Seq::<char>::empty(), host, user, repo],
{
    reveal_strlit("/");
    let e = Seq::<char>::empty();
    lemma_split_on_append(prefix, user, '/');
    assert(e + user =~= user);
    assert(split_on(prefix + user, '/') =~= seq!["https:"@, e, host, user]);
    lemma_split_on_push_sep(prefix + user, '/');
    assert((prefix + user).push('/') =~= prefix + user + "/"@);
    lemma_split_on_append(prefix + user + "/"@, repo, '/');
    assert(split_on(prefix + user + "/"@ + repo, '/') =~= seq!["https:"@, e, host, user, repo]);
}

/// The URL that a source is cloned from parses back to that source, with the
/// branch that its remote announces, when its user and repository hold no `/`
/// and the repository does not end in `.git`.
pub proof fn law_clone_url_parses_back(s: GitSource)
    requires
        !s.user().contains('/'),
        !s.repo().contains('/'),
        !".git"@.is_suffix_of(s.repo()),
    ensures
        ({
            let url = s.spec_clone_url();
            &&& is_forge_url(url)
            &&& has_repo_piece(url)
            &&& url_repo(url) == s.repo()
            &&& match s {
                GitSource::GitHub { .. } => is_github_url(url) && url_user(url) == s.user(),
                GitSource::GitLab { .. } => !is_github_url(url) && is_gitlab_url(url) && url_user(
                    url,
                ) == s.user(),
                GitSource::Sourcehut { .. } => !is_github_url(url) && !is_gitlab_url(url)
                    && is_sourcehut_url(url) && without_tilde(url_user(url)) == s.user(),
            }
        }),
{
    reveal_strlit("https://github.com/");
    reveal_strlit("https://gitlab.com/");
    reveal_strlit("https://git.sr.ht/");
    reveal_strlit("https://git.sr.ht/~");
    reveal_strlit("https:");
    reveal_strlit("github.com");
    reveal_strlit("gitlab.com");
    reveal_strlit("git.sr.ht");
    reveal_strlit(".git");
    reveal_strlit("/");
    let url = s.spec_clone_url();
    let u = s.user();
    let r = s.repo();
    let dot_git = ".git"@;
    let rg = r + dot_git;
    assert(!rg.contains('/')) by {
        if rg.contains('/') {
            let i = choose|i: int| 0 <= i < rg.len() && rg[i] == '/';
            if i < r.len() {
                assert(r[i] == '/');
            }
        }
    }
    match s {
        GitSource::GitHub { .. } => {
            let host = "github.com"@;
            let prefix = "https://github.com/"@;
            assert(prefix =~= "https:"@ + seq!['/', '/'] + host + seq!['/']);
            lemma_split_forge_prefix(host);
            lemma_split_repo_url(prefix, host, u, rg);
            assert(url =~= prefix + u + "/"@ + rg);
            assert(prefix.is_prefix_of(url));
        },
        GitSource::GitLab { .. } => {
            let host = "gitlab.com"@;
            let prefix = "https://gitlab.com/"@;
            assert(prefix =~= "https:"@ + seq!['/', '/'] + host + seq!['/']);
            lemma_split_forge_prefix(host);
            lemma_split_repo_url(prefix, host, u, rg);
            assert(url =~= prefix + u + "/"@ + rg);
            assert(prefix.is_prefix_of(url));
            assert(url[11] == prefix[11]);
            assert(url[11] != "https://github.com/"@[11]);
        },
        GitSource::Sourcehut { .. } => {
            let host = "git.sr.ht"@;
            let prefix = "https://git.sr.ht/"@;
            assert(prefix =~= "https:"@ + seq!['/', '/'] + host + seq!['/']);
            lemma_split_forge_prefix(host);
            let tu = seq!['~'] + u;
            assert(!tu.contains('/')) by {
                if tu.contains('/') {
                    let i = choose|i: int| 0 <= i < tu.len() && tu[i] == '/';
                    assert(u[i - 1] == '/');
                }
            }
            lemma_split_repo_url(prefix, host, tu, r);
            assert(url =~= prefix + tu + "/"@ + r);
            assert(prefix.is_prefix_of(url));
            assert(url[11] == prefix[11]);
            assert(url[11] != "https://github.com/"@[11]);
            assert(url[11] != "https://gitlab.com/"@[11]);
            assert(tu.drop_first() =~= u);
        },
    }
    if !(s is Sourcehut) {
        assert(dot_git.is_suffix_of(rg)) by {
            assert(rg.subrange(rg.len() - 4, rg.len() as int) =~= dot_git);
        }
        assert(rg.take(rg.len() - 4) =~= r);
        assert(trim_suffix_all(rg, dot_git) == trim_suffix_all(r, dot_git));
    }
    assert(trim_suffix_all(r, dot_git) == r);
    assert(has_repo_piece(url));
    assert(url_repo(url) == r);
}

/// The pieces of `prefix` + `more` when `more` holds no `/`.
proof fn lemma_split_extend(prefix: Seq<char>, pieces: Seq<Seq<char>>, more: Seq<char>)
    requires
        split_on(prefix, '/') == pieces.push(Seq::<char>::empty()),
        !more.contains('/'),
    ensures
        split_on(prefix + more, '/') == pieces.push(more),
{
    lemma_split_on_append(prefix, more, '/');
    assert(Seq::<char>::empty() + more =~= more);
    assert(pieces.push(Seq::<char>::empty()).update(pieces.len() as int, more) =~= pieces.push(more));
}

/// The pieces of `https://` + `host` + `/` + `user` + `/` + `repo` + `/`.
proof fn lemma_split_repo_base(host: Seq<char>, user: Seq<char>, repo: Seq<char>)
    requires
        !host.contains('/'),
        !user.contains('/'),
        !repo.contains('/'),
    ensures
        split_on(
            "https:"@ + seq!['/', '/'] + host + seq!['/'] + user + seq!['/'] + repo + seq!['/'],
            '/',
        ) == seq!["https:"@, Seq::<char>::empty(), host, user, repo, Seq::<char>::empty()],
{
    let e = Seq::<char>::empty();
    let pre = "https:"@ + seq!['/', '/'] + host + seq!['/'];
    lemma_split_forge_prefix(host);
    let base = seq!["https:"@, e, host];
    assert(split_on(pre, '/') == base.push(e));
    lemma_split_extend(pre, base, user);
    let a1 = pre + user;
    lemma_split_on_push_sep(a1, '/');
    assert(a1.push('/') =~= pre + user + seq!['/']);
    lemma_split_extend(a1.push('/'), base.push(user), repo);
    let a2 = a1.push('/') + repo;
    lemma_split_on_push_sep(a2, '/');
    assert(a2.push('/') =~= pre + user + seq!['/'] + repo + seq!['/']);
    assert(base.push(user).push(repo).push(e) =~= seq!["https:"@, e, host, user, repo, e]);
}

/// The pieces of `base` + `more` + `/` + `path`, where `base` splits into
/// `pieces` and a last empty piece and `more` holds no `/`.
proof fn lemma_split_tail(base: Seq<char>, pieces: Seq<Seq<char>>, more: Seq<char>, path: Seq<char>)
    requires
        split_on(base, '/') == pieces.push(Seq::<char>::empty()),
        !more.contains('/'),
    ensures
        split_on(base + more + seq!['/'] + path, '/') == pieces.push(more) + split_on(path, '/'),
{
    lemma_split_extend(base, pieces, more);
    lemma_split_on_join(base + more, path, '/');
    assert((base + more).push('/') + path =~= base + more + seq!['/'] + path);
}

/// A raw-file link is made of the pieces `https:`, ``, the forge's host, the
/// user (after `~` on Sourcehut), the repository, `raw` on GitLab or `blob` on
/// Sourcehut, the default branch, and then the pieces of the path: the link
/// names the source's own user, repository and default branch.
#[verifier::rlimit(40)]
pub proof fn law_raw_file_url_pieces(s: GitSource, path: Seq<char>)
    requires
        !s.user().contains('/'),
        !s.repo().contains('/'),
        !s.branch().contains('/'),
    ensures
        split_on(s.raw_file_url(path), '/') == match s {
            GitSource::GitHub { .. } => seq![
                "https:"@,
                Seq::<char>::empty(),
                "raw.githubusercontent.com"@,
                s.user(),
                s.repo(),
                s.branch(),
            ] + split_on(path, '/'),
            GitSource::GitLab { .. } => seq![
                "https:"@,
                Seq::<char>::empty(),
                "gitlab.com"@,
                s.user(),
                s.repo(),
                "raw"@,
                s.branch(),
            ] + split_on(path, '/'),
            GitSource::Sourcehut { .. } => seq![
                "https:"@,
                Seq::<char>::empty(),
                "git.sr.ht"@,
                seq!['~'] + s.user(),
                s.repo(),
                "blob"@,
                s.branch(),
            ] + split_on(path, '/'),
        },
{
    let e = Seq::<char>::empty();
    let u = s.user();
    let r = s.repo();
    let b = s.branch();
    let sl = seq!['/'];
    match s {
        GitSource::GitHub { .. } => {
            let host = "raw.githubusercontent.com"@;
            reveal_strlit("raw.githubusercontent.com");
            reveal_strlit("https://raw.githubusercontent.com/");
            reveal_strlit("https:");
            reveal_strlit("/");
            lemma_split_repo_base(host, u, r);
            let base = "https:"@ + seq!['/', '/'] + host + sl + u + sl + r + sl;
            assert(seq!["https:"@, e, host, u, r].push(e) =~= seq!["https:"@, e, host, u, r, e]);
            lemma_split_tail(base, seq!["https:"@, e, host, u, r], b, path);
            assert("https://raw.githubusercontent.com/"@ =~= "https:"@ + seq!['/', '/'] + host + sl);
            assert(s.raw_file_url(path) =~= base + b + sl + path);
        },
        GitSource::GitLab { .. } => {
            let host = "gitlab.com"@;
            let kind = "raw"@;
            reveal_strlit("gitlab.com");
            reveal_strlit("https://gitlab.com/");
            reveal_strlit("https:");
            reveal_strlit("/");
            reveal_strlit("/raw/");
            reveal_strlit("raw");
            lemma_split_repo_base(host, u, r);
            let base = "https:"@ + seq!['/', '/'] + host + sl + u + sl + r + sl;
            assert(seq!["https:"@, e, host, u, r].push(e) =~= seq!["https:"@, e, host, u, r, e]);
            assert(!kind.contains('/'));
            lemma_split_extend(base, seq!["https:"@, e, host, u, r], kind);
            lemma_split_on_push_sep(base + kind, '/');
            let base2 = (base + kind).push('/');
            assert(seq!["https:"@, e, host, u, r].push(kind) =~= seq!["https:"@, e, host, u, r, kind]);
            lemma_split_tail(base2, seq!["https:"@, e, host, u, r, kind], b, path);
            assert("https://gitlab.com/"@ =~= "https:"@ + seq!['/', '/'] + host + sl);
            assert(s.raw_file_url(path) =~= base2 + b + sl + path);
        },
        GitSource::Sourcehut { .. } => {
            let host = "git.sr.ht"@;
            let kind = "blob"@;
            let tu = seq!['~'] + u;
            reveal_strlit("git.sr.ht");
            reveal_strlit("https://git.sr.ht/~");
            reveal_strlit("https:");
            reveal_strlit("/");
            reveal_strlit("/blob/");
            reveal_strlit("blob");
            assert(!tu.contains('/')) by {
                if tu.contains('/') {
                    let i = choose|i: int| 0 <= i < tu.len() && tu[i] == '/';
                    assert(u[i - 1] == '/');
                }
            }
            lemma_split_repo_base(host, tu, r);
            let base = "https:"@ + seq!['/', '/'] + host + sl + tu + sl + r + sl;
            assert(seq!["https:"@, e, host, tu, r].push(e) =~= seq!["https:"@, e, host, tu, r, e]);
            assert(!kind.contains('/'));
            lemma_split_extend(base, seq!["https:"@, e, host, tu, r], kind);
            lemma_split_on_push_sep(base + kind, '/');
            let base2 = (base + kind).push('/');
            assert(seq!["https:"@, e, host, tu, r].push(kind) =~= seq!["https:"@, e, host, tu, r, kind]);
            lemma_split_tail(base2, seq!["https:"@, e, host, tu, r, kind], b, path);
            assert("https://git.sr.ht/~"@ =~= "https:"@ + seq!['/', '/'] + host + sl + seq!['~']);
            assert(s.raw_file_url(path) =~= base2 + b + sl + path);
        },
    }
}

/// Two sources of the same repository that differ only in their default
/// branch give different raw-file links to the same path.
pub proof fn law_raw_file_url_follows_branch(s: GitSource, t: GitSource, path: Seq<char>)
    requires
        (s is GitHub) == (t is GitHub),
        (s is GitLab) == (t is GitLab),
        s.user() == t.user(),
        s.repo() == t.repo(),
        !s.user().contains('/'),
        !s.repo().contains('/'),
        !s.branch().contains('/'),
        !t.branch().contains('/'),
        s.branch() != t.branch(),
    ensures
        s.raw_file_url(path) != t.raw_file_url(path),
{
    law_raw_file_url_pieces(s, path);
    law_raw_file_url_pieces(t, path);
    let k: int = if s is GitHub { 5 } else { 6 };
    assert(split_on(s.raw_file_url(path), '/')[k] == s.branch());
    assert(split_on(t.raw_file_url(path), '/')[k] == t.branch());
}

/// What the loop waiting for a clone does next.
#[derive(Debug, Clone, Copy, PartialEq, Eq, Structural)]
pub enum CloneWait {
    /// The clone is there.
    Ready,
    /// Sleep a second and look again.
    Wait,
    /// The clone failed.
    GiveUp,
}

/// Decides the next step of the wait for a clone, given whether its
/// `.gitmodules` file is there and how many times it was waited for.
pub fn clone_wait_step(gitmodules_present: bool, retries: u32) -> (r: CloneWait)
    ensures
        r == (if !gitmodules_present && retries < MAX_CLONE_RETRIES {
            CloneWait::Wait
        } else if retries == MAX_CLONE_RETRIES {
            CloneWait::GiveUp
        } else {
            CloneWait::Ready
        }),
{
    if !gitmodules_present && retries < MAX_CLONE_RETRIES {
        CloneWait::Wait
    } else if retries == MAX_CLONE_RETRIES {
        CloneWait::GiveUp
    } else {
        CloneWait::Ready
    }
}

/// Whether the URL has a piece for the user and one for the repository, as
/// [`GitSource::parse_url`] needs of a forge URL.
pub fn has_repo_path(url: &str) -> (r: bool)
    ensures
        r == has_repo_piece(url@),
{
    let parts = split_chars(&chars_of(url), '/');
    parts.len() >= 5
}

/// Two sources name the same repository on the same forge, on the same branch.
pub open spec fn same_source(a: GitSource, b: GitSource) -> bool {
    &&& (a is GitHub) == (b is GitHub)
    &&& (a is GitLab) == (b is GitLab)
    &&& a.user() == b.user()
    &&& a.repo() == b.repo()
    &&& a.branch() == b.branch()
}

/// Some source of `sources` names the same repository as `s`.
pub open spec fn source_listed(s: GitSource, sources: Seq<GitSource>) -> bool {
    exists|j: int| 0 <= j < sources.len() && same_source(s, #[trigger] sources[j])
}

/// The sources without repetitions: each repository is listed once.
pub fn dedup_sources(sources: &Vec<GitSource>) -> (r: Vec<GitSource>)
    ensures
        forall|i: int, j: int|
            0 <= i < j < r@.len() ==> !same_source(#[trigger] r@[i], #[trigger] r@[j]),
        forall|i: int| 0 <= i < sources@.len() ==> source_listed(#[trigger] sources@[i], r@),
        forall|j: int| 0 <= j < r@.len() ==> sources@.contains(#[trigger] r@[j]),
{
    let mut kept: Vec<GitSource> = Vec::new();
    let mut i: usize = 0;
    while i < sources.len()
        invariant
            i <= sources@.len(),
            forall|a: int, b: int|
                0 <= a < b < kept@.len() ==> !same_source(#[trigger] kept@[a], #[trigger] kept@[b]),
            forall|a: int| 0 <= a < i ==> source_listed(#[trigger] sources@[a], kept@),
            forall|j: int| 0 <= j < kept@.len() ==> sources@.contains(#[trigger] kept@[j]),
        decreases sources@.len() - i,
    {
        let mut seen = false;
        let mut k: usize = 0;
        while k < kept.len()
            invariant
                k <= kept@.len(),
                i < sources@.len(),
                seen ==> source_listed(sources@[i as int], kept@),
                !seen ==> forall|j: int|
                    0 <= j < k ==> !same_source(sources@[i as int], #[trigger] kept@[j]),
            decreases kept@.len() - k,
        {
            if kept[k].same_as(&sources[i]) {
                seen = true;
            }
            k = k + 1;
        }
        let ghost before = kept@;
        if !seen {
            kept.push(sources[i].copy());
            proof {
                assert(kept@[before.len() as int] == sources@[i as int]);
                assert forall|a: int, b: int|
                    0 <= a < b < kept@.len() implies !same_source(#[trigger] kept@[a], #[trigger] kept@[b]) by {
                    if b == before.len() {
                        assert(kept@[a] == before[a]);
                    } else {
                        assert(kept@[a] == before[a] && kept@[b] == before[b]);
                    }
                }
                assert forall|a: int| 0 <= a < i + 1 implies source_listed(#[trigger] sources@[a], kept@) by {
                    if a < i {
                        assert(source_listed(sources@[a], before));
                        let j = choose|j: int| 0 <= j < before.len() && same_source(sources@[a], #[trigger] before[j]);
                        assert(kept@[j] == before[j]);
                    } else {
                        assert(same_source(sources@[a], kept@[before.len() as int]));
                    }
                }
                assert forall|j: int| 0 <= j < kept@.len() implies sources@.contains(#[trigger] kept@[j]) by {
                    if j < before.len() {
                        assert(kept@[j] == before[j]);
                    } else {
                        assert(kept@[j] == sources@[i as int]);
                    }
                }
            }
        }
        i = i + 1;
    }
    kept
}

impl GitSource {
    /// A copy of the source.
    pub fn copy(&self) -> (r: GitSource)
        ensures
            r == *self,
    {
        match self {
            GitSource::GitHub { user, repo, default_branch } => GitSource::GitHub {
                user: user.clone(),
                repo: repo.clone(),
                default_branch: default_branch.clone(),
            },
            GitSource::GitLab { user, repo, default_branch } => GitSource::GitLab {
                user: user.clone(),
                repo: repo.clone(),
                default_branch: default_branch.clone(),
            },
            GitSource::Sourcehut { user, repo, default_branch } => GitSource::Sourcehut {
                user: user.clone(),
                repo: repo.clone(),
                default_branch: default_branch.clone(),
            },
        }
    }

    /// Whether the two sources name the same repository on the same forge, on
    /// the same branch (the derived `==` of `GitSource`).
    pub fn same_as(&self, other: &GitSource) -> (r: bool)
        ensures
            r == same_source(*self, *other),
    {
        match (self, other) {
            (
                GitSource::GitHub { user: u1, repo: r1, default_branch: b1 },
                GitSource::GitHub { user: u2, repo: r2, default_branch: b2 },
            ) => *u1 == *u2 && *r1 == *r2 && *b1 == *b2,
            (
                GitSource::GitLab { user: u1, repo: r1, default_branch: b1 },
                GitSource::GitLab { user: u2, repo: r2, default_branch: b2 },
            ) => *u1 == *u2 && *r1 == *r2 && *b1 == *b2,
            (
                GitSource::Sourcehut { user: u1, repo: r1, default_branch: b1 },
                GitSource::Sourcehut { user: u2, repo: r2, default_branch: b2 },
            ) => *u1 == *u2 && *r1 == *r2 && *b1 == *b2,
            _ => false,
        }
    }

    pub open spec fn user(self) -> Seq<char> {
        match self {
            GitSource::GitHub { user, .. } => user@,
            GitSource::GitLab { user, .. } => user@,
            GitSource::Sourcehut { user, .. } => user@,
        }
    }

    pub open spec fn repo(self) -> Seq<char> {
        match self {
            GitSource::GitHub { repo, .. } => repo@,
            GitSource::GitLab { repo, .. } => repo@,
            GitSource::Sourcehut { repo, .. } => repo@,
        }
    }

    pub open spec fn branch(self) -> Seq<char> {
        match self {
            GitSource::GitHub { default_branch, .. } => default_branch@,
            GitSource::GitLab { default_branch, .. } => default_branch@,
            GitSource::Sourcehut { default_branch, .. } => default_branch@,
        }
    }

    /// The raw-file link of the forge to `path`, before spaces are encoded.
    pub open spec fn raw_file_url(self, path: Seq<char>) -> Seq<char> {
        match self {
            GitSource::GitLab { .. } => "https://gitlab.com/"@ + self.user() + "/"@ + self.repo()
                + "/raw/"@ + self.branch() + "/"@ + path,
            GitSource::GitHub { .. } => "https://raw.githubusercontent.com/"@ + self.user() + "/"@
                + self.repo() + "/"@ + self.branch() + "/"@ + path,
            GitSource::Sourcehut { .. } => "https://git.sr.ht/~"@ + self.user() + "/"@ + self.repo()
                + "/blob/"@ + self.branch() + "/"@ + path,
        }
    }

    /// The URL that `git clone` is given for the repository.
    pub open spec fn spec_clone_url(self) -> Seq<char> {
        match self {
            GitSource::GitHub { .. } => "https://github.com/"@ + self.user() + "/"@ + self.repo()
                + ".git"@,
            GitSource::GitLab { .. } => "https://gitlab.com/"@ + self.user() + "/"@ + self.repo()
                + ".git"@,
            GitSource::Sourcehut { .. } => "https://git.sr.ht/~"@ + self.user() + "/"@ + self.repo(),
        }
    }

    /// Builds the source of a repository from its URL and the default branch
    /// that its remote announced; `None` for a URL of no known forge.
    ///
    /// The user and repository are the fourth and fifth `/`-separated pieces
    /// of the URL, the repository without its `.git` endings and, on
    /// Sourcehut, the user without its leading `~`.
    pub fn parse_url(url: &str, default_branch: String) -> (r: Option<GitSource>)
        requires
            is_forge_url(url@) ==> has_repo_piece(url@),
        ensures
            r is None <==> !is_forge_url(url@),
            r matches Some(s) ==> s.repo() == url_repo(url@) && s.branch() == default_branch@,
            r matches Some(s) ==> match s {
                GitSource::GitHub { .. } => is_github_url(url@) && s.user() == url_user(url@),
                GitSource::GitLab { .. } => !is_github_url(url@) && is_gitlab_url(url@)
                    && s.user() == url_user(url@),
                GitSource::Sourcehut { .. } => !is_github_url(url@) && !is_gitlab_url(url@)
                    && is_sourcehut_url(url@) && s.user() == without_tilde(url_user(url@)),
            },
    {
        let v = chars_of(url);
        let github = has_prefix(&v, &chars_of("https://github.com/"));
        let gitlab = has_prefix(&v, &chars_of("https://gitlab.com/"));
        let sourcehut = has_prefix(&v, &chars_of("https://git.sr.ht/"));
        if !github && !gitlab && !sourcehut {
            return None;
        }
        let parts = split_chars(&v, '/');
        proof {
            assert(pieces_view(parts@)[3] == parts@[3]@);
            assert(pieces_view(parts@)[4] == parts@[4]@);
        }
        let repo = string_of(&trim_end_all(&parts[4], &chars_of(".git")));
        if github {
            Some(GitSource::GitHub { user: string_of(&parts[3]), repo, default_branch })
        } else if gitlab {
            Some(GitSource::GitLab { user: string_of(&parts[3]), repo, default_branch })
        } else {
            let piece = &parts[3];
            let user = if piece.len() > 0 && piece[0] == '~' {
                let rest = chars_from(piece, 1);
                assert(rest@ =~= piece@.drop_first());
                string_of(&rest)
            } else {
                string_of(piece)
            };
            Some(GitSource::Sourcehut { user, repo, default_branch })
        }
    }

    /// The submodule URLs that a `.gitmodules` text lists, in order: the lines
    /// that start with a tab and `url`, without their leading `\turl = `.
    pub fn gitmodules_urls(text: &str) -> (urls: Vec<String>)
        ensures
            strings_view(urls@) == gitmodules_urls_of(text@),
    {
        let v = chars_of(text);
        let parts = split_chars(&v, '\n');
        let ghost pv = split_on(text@, '\n');
        let ghost ended = pv.drop_last().map_values(|l: Seq<char>| without_cr(l));
        let ghost f = |l: Seq<char>| module_url(l);
        let key = chars_of("\turl");
        let lead = chars_of("\turl = ");
        let mut urls: Vec<String> = Vec::new();
        let last = parts.len() - 1;
        let mut i: usize = 0;
        while i < last
            invariant
                pieces_view(parts@) == pv,
                last == pv.len() - 1,
                ended == pv.drop_last().map_values(|l: Seq<char>| without_cr(l)),
                f == (|l: Seq<char>| module_url(l)),
                key@ == "\turl"@,
                lead@ == "\turl = "@,
                i <= last,
                strings_view(urls@) == ended.take(i as int).filter_map(f),
            decreases last - i,
        {
            let part = &parts[i];
            let line = if part.len() > 0 && part[part.len() - 1] == '\r' {
                crate::text::chars_to(part, part.len() - 1)
            } else {
                crate::text::chars_to(part, part.len())
            };
            proof {
                assert(part@ == pv[i as int]);
                assert(part@.take(part@.len() as int) =~= part@);
                assert(part@.len() > 0 ==> part@.take(part@.len() - 1) =~= part@.drop_last());
                assert(line@ == ended[i as int]);
                assert(ended.take(i + 1).drop_last() =~= ended.take(i as int));
            }
            if has_prefix(&line, &key) {
                let url = string_of(&trim_start_all(&line, &lead));
                urls.push(url);
                assert(strings_view(urls@) =~= ended.take(i + 1).filter_map(f));
            } else {
                assert(strings_view(urls@) =~= ended.take(i + 1).filter_map(f));
            }
            i = i + 1;
        }
        assert(ended.take(last as int) =~= ended);
        let final_part = &parts[last];
        assert(final_part@ == pv.last());
        if final_part.len() > 0 {
            if has_prefix(final_part, &key) {
                let url = string_of(&trim_start_all(final_part, &lead));
                urls.push(url);
            }
            assert(ended.push(pv.last()).drop_last() =~= ended);
            assert(strings_view(urls@) =~= ended.push(pv.last()).filter_map(f));
        }
        urls
    }

    /// The link to the raw file at `path` in the repository, on its default
    /// branch, with each space written `%20`.
    pub fn get_file_url(&self, path: &str) -> (url: String)
        ensures
            url@ == spaces_encoded(self.raw_file_url(path@)),
    {
        let mut raw = String::new();
        match self {
            GitSource::GitLab { user, repo, default_branch } => {
                raw.append("https://gitlab.com/");
                raw.append(user.as_str());
                raw.append("/");
                raw.append(repo.as_str());
                raw.append("/raw/");
                raw.append(default_branch.as_str());
                raw.append("/");
                raw.append(path);
            },
            GitSource::Sourcehut { user, repo, default_branch } => {
                raw.append("https://git.sr.ht/~");
                raw.append(user.as_str());
                raw.append("/");
                raw.append(repo.as_str());
                raw.append("/blob/");
                raw.append(default_branch.as_str());
                raw.append("/");
                raw.append(path);
            },
            GitSource::GitHub { user, repo, default_branch } => {
                raw.append("https://raw.githubusercontent.com/");
                raw.append(user.as_str());
                raw.append("/");
                raw.append(repo.as_str());
                raw.append("/");
                raw.append(default_branch.as_str());
                raw.append("/");
                raw.append(path);
            },
        }
        assert(raw@ =~= self.raw_file_url(path@));
        encode_spaces(raw.as_str())
    }

    /// The URL that `git clone` is given for the repository.
    pub fn clone_url(&self) -> (url: String)
        ensures
            url@ == self.spec_clone_url(),
    {
        let mut url = String::new();
        match self {
            GitSource::GitHub { user, repo, .. } => {
                url.append("https://github.com/");
                url.append(user.as_str());
                url.append("/");
                url.append(repo.as_str());
                url.append(".git");
            },
            GitSource::GitLab { user, repo, .. } => {
                url.append("https://gitlab.com/");
                url.append(user.as_str());
                url.append("/");
                url.append(repo.as_str());
                url.append(".git");
            },
            GitSource::Sourcehut { user, repo, .. } => {
                url.append("https://git.sr.ht/~");
                url.append(user.as_str());
                url.append("/");
                url.append(repo.as_str());
            },
        }
        assert(url@ =~= self.spec_clone_url());
        url
    }

    /// The name of the directory that the repository is cloned into:
    /// `[user]_[repo]`.
    pub fn local_dir_name(&self) -> (name: String)
        ensures
            name@ == self.user() + "_"@ + self.repo(),
    {
        let mut name = String::new();
        match self {
            GitSource::GitHub { user, repo, .. }
            | GitSource::GitLab { user, repo, .. }
            | GitSource::Sourcehut { user, repo, .. } => {
                name.append(user.as_str());
                name.append("_");
                name.append(repo.as_str());
            },
        }
        assert(name@ =~= self.user() + "_"@ + self.repo());
        name
    }
}

} // verus!
